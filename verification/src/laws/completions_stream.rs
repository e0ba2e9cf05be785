//! What a chunk of a chat completion sends on.
use vstd::prelude::*;
use crate::api::headers::Pairs;
use crate::api::openai_completions::stream::{
    call_delta, call_ensured, call_streamed, calls_streamed, choice_taken, chunk_taken,
    delta_streamed, filled_at, head_taken, signature_field, text_streamed, thinking_in,
    thinking_streamed, Memory, Progress,
};
use crate::json::{array_at, as_object, object_at, str_at, text_or_empty, Entries, Json};
use crate::laws::sent::{lemma_parts_sent_push, parts_sent, Sort};
use crate::types::{Model, Pricing};

verus! {

proof fn lemma_text(p: Progress, delta: Seq<char>)
    ensures
        ({
            let after = text_streamed(p, delta);
            &&& parts_sent(after.sent, Sort::Text) == parts_sent(p.sent, Sort::Text).push(delta)
            &&& parts_sent(after.sent, Sort::Thinking) == parts_sent(p.sent, Sort::Thinking)
            &&& parts_sent(after.sent, Sort::Call) == parts_sent(p.sent, Sort::Call)
        }),
{
    let after = text_streamed(p, delta);
    let before = after.sent.drop_last();
    assert(after.sent =~= before.push(after.sent.last()));
    lemma_parts_sent_push(before, after.sent.last(), Sort::Text);
    lemma_parts_sent_push(before, after.sent.last(), Sort::Thinking);
    lemma_parts_sent_push(before, after.sent.last(), Sort::Call);
    if p.memory.text is None {
        assert(before =~= p.sent.push(before.last()));
        lemma_parts_sent_push(p.sent, before.last(), Sort::Text);
        lemma_parts_sent_push(p.sent, before.last(), Sort::Thinking);
        lemma_parts_sent_push(p.sent, before.last(), Sort::Call);
    } else {
        assert(before =~= p.sent);
    }
}

proof fn lemma_thinking(p: Progress, field: Seq<char>, delta: Seq<char>)
    ensures
        ({
            let after = thinking_streamed(p, field, delta);
            &&& parts_sent(after.sent, Sort::Thinking) == parts_sent(
                p.sent,
                Sort::Thinking,
            ).push(delta)
            &&& parts_sent(after.sent, Sort::Text) == parts_sent(p.sent, Sort::Text)
            &&& parts_sent(after.sent, Sort::Call) == parts_sent(p.sent, Sort::Call)
        }),
{
    let after = thinking_streamed(p, field, delta);
    let before = after.sent.drop_last();
    assert(after.sent =~= before.push(after.sent.last()));
    lemma_parts_sent_push(before, after.sent.last(), Sort::Text);
    lemma_parts_sent_push(before, after.sent.last(), Sort::Thinking);
    lemma_parts_sent_push(before, after.sent.last(), Sort::Call);
    if p.memory.thinking is None {
        assert(before =~= p.sent.push(before.last()));
        lemma_parts_sent_push(p.sent, before.last(), Sort::Text);
        lemma_parts_sent_push(p.sent, before.last(), Sort::Thinking);
        lemma_parts_sent_push(p.sent, before.last(), Sort::Call);
    } else {
        assert(before =~= p.sent);
    }
}

proof fn lemma_calls(
    p: Progress,
    list: Seq<Json>,
    properties: Pairs,
    read: spec_fn(Seq<char>) -> Json,
)
    ensures
        ({
            let after = calls_streamed(p, list, properties, read);
            &&& parts_sent(after.sent, Sort::Text) == parts_sent(p.sent, Sort::Text)
            &&& parts_sent(after.sent, Sort::Thinking) == parts_sent(p.sent, Sort::Thinking)
        }),
    decreases list.len(),
{
    if list.len() > 0 {
        lemma_calls(p, list.drop_last(), properties, read);
        let q = calls_streamed(p, list.drop_last(), properties, read);
        if let Some(e) = as_object(list.last()) {
            let after = call_streamed(q, call_delta(e), properties, read);
            let before = call_ensured(q, call_delta(e), properties).0.sent;
            assert(after.sent =~= before.push(after.sent.last()));
            lemma_parts_sent_push(before, after.sent.last(), Sort::Text);
            lemma_parts_sent_push(before, after.sent.last(), Sort::Thinking);
            if before.len() != q.sent.len() {
                assert(before =~= q.sent.push(before.last()));
                lemma_parts_sent_push(q.sent, before.last(), Sort::Text);
                lemma_parts_sent_push(q.sent, before.last(), Sort::Thinking);
            }
        }
    }
}

/// The delta of the first choice of a chunk, where there is one.
pub open spec fn delta_of(chunk: Json) -> Option<Entries> {
    match chunk {
        Json::Object(e) => match array_at(e, "choices"@) {
            Some(choices) => if choices.len() > 0 {
                match choices[0] {
                    Json::Object(choice) => object_at(choice, "delta"@),
                    _ => None,
                }
            } else {
                None
            },
            None => None,
        },
        _ => None,
    }
}

/// The text of a field, which is empty where the field is missing or holds no
/// text.
pub open spec fn field(e: Entries, key: Seq<char>) -> Seq<char> {
    text_or_empty(str_at(e, key))
}

/// What a chunk thinks and says is sent on once and as it is. A text that is not
/// empty under `reasoning_content` is sent as one part of the thinking; else one
/// under `reasoning`; else one under `reasoning_text`; and no thinking is sent
/// where all three are missing or empty. A text that is not empty under `content`
/// is sent as one part of the text.
pub proof fn law_chunk_is_sent_on(
    p: Progress,
    chunk: Json,
    delta: Entries,
    model: Model,
    properties: Pairs,
    read: spec_fn(Seq<char>) -> Json,
    price: Pricing,
)
    requires
        delta_of(chunk) == Some(delta),
    ensures
        ({
            let after = chunk_taken(p, chunk, model, properties, read, price).sent;
            let thought = parts_sent(p.sent, Sort::Thinking);
            let said = parts_sent(p.sent, Sort::Text);
            let first = field(delta, "reasoning_content"@);
            let second = field(delta, "reasoning"@);
            let third = field(delta, "reasoning_text"@);
            &&& first.len() > 0 ==> parts_sent(after, Sort::Thinking) == thought.push(first)
            &&& first.len() == 0 && second.len() > 0 ==> parts_sent(after, Sort::Thinking)
                == thought.push(second)
            &&& first.len() == 0 && second.len() == 0 && third.len() > 0 ==> parts_sent(
                after,
                Sort::Thinking,
            ) == thought.push(third)
            &&& first.len() == 0 && second.len() == 0 && third.len() == 0 ==> parts_sent(
                after,
                Sort::Thinking,
            ) == thought
            &&& field(delta, "content"@).len() > 0 ==> parts_sent(after, Sort::Text) == said.push(
                field(delta, "content"@),
            )
            &&& field(delta, "content"@).len() == 0 ==> parts_sent(after, Sort::Text) == said
        }),
{
    reveal(chunk_taken);
    let e = chunk->Object_0;
    let choice = array_at(e, "choices"@)->0[0]->Object_0;
    let chosen = chosen_of(p, e, choice, model, price);
    let spoken = if field(delta, "content"@).len() > 0 {
        lemma_text(chosen, field(delta, "content"@));
        text_streamed(chosen, field(delta, "content"@))
    } else {
        chosen
    };
    let thought = match thinking_in(delta) {
        Some((key, text)) => {
            lemma_thinking(spoken, signature_field(model, key), text);
            thinking_streamed(spoken, signature_field(model, key), text)
        },
        None => spoken,
    };
    if let Some(list) = array_at(delta, "tool_calls"@) {
        lemma_calls(thought, list, properties, read);
    }
    assert(chunk_taken(p, chunk, model, properties, read, price) == delta_streamed(
        chosen,
        delta,
        model,
        properties,
        read,
    ));
}

spec fn chosen_of(p: Progress, e: Entries, choice: Entries, model: Model, price: Pricing) -> Progress {
    let headed = Progress { reply: head_taken(p.reply, e, model, price), ..p };
    Progress {
        reply: choice_taken(headed.reply, e, choice, price),
        memory: Memory {
            has_finish_reason: headed.memory.has_finish_reason || filled_at(
                choice,
                "finish_reason"@,
            ) is Some,
            ..headed.memory
        },
        ..headed
    }
}

} // verus!
