//! How the events of a Mistral stream are read.
use vstd::prelude::*;
use crate::api::mistral_conversations::events::{
    event_data, parsed_call, parsed_calls, parsed_choice, parsed_choices, parsed_chunk,
    parsed_chunks, parsed_completion, parsed_content, parsed_event, parsed_usage, thinking_texts,
    CallDelta, Chunk, Said, StreamEvent,
};
use crate::api::mistral_conversations::ids::candidate;
use crate::api::mistral_conversations::stream::{
    call_id, call_key, calls_ended, current_finished, text_streamed, thinking_streamed, Current,
    Progress,
};
use crate::json::{array_at, has_key, object_at, str_at, Entries, Json};
use crate::number::whole;
use crate::text::decimal;
use crate::types::{Block, Event, Reply};

verus! {

/// Lists of thoughts, chunks, calls and choices are read in order: a list is read as
/// its two halves are, one after the other, and what cannot be read is passed over.
pub proof fn law_lists_are_read_in_order(a: Seq<Json>, b: Seq<Json>, e: Entries)
    ensures
        thinking_texts(a + b) == thinking_texts(a) + thinking_texts(b),
        parsed_chunks(a + b) == parsed_chunks(a) + parsed_chunks(b),
        parsed_calls(a + b) == parsed_calls(a) + parsed_calls(b),
        parsed_choices(a + b) == parsed_choices(a) + parsed_choices(b),
        str_at(e, "text"@) matches Some(text) ==> thinking_texts(seq![Json::Object(e)])
            == seq![text],
        str_at(e, "text"@) is None ==> thinking_texts(seq![Json::Object(e)]).len() == 0,
        parsed_chunk(e) matches Some(chunk) ==> parsed_chunks(seq![Json::Object(e)]) == seq![chunk],
        parsed_chunk(e) is None ==> parsed_chunks(seq![Json::Object(e)]).len() == 0,
        parsed_call(e) matches Some(call) ==> parsed_calls(seq![Json::Object(e)]) == seq![call],
        parsed_call(e) is None ==> parsed_calls(seq![Json::Object(e)]).len() == 0,
        parsed_choice(e) matches Some(choice) ==> parsed_choices(seq![Json::Object(e)])
            == seq![choice],
        parsed_choice(e) is None ==> parsed_choices(seq![Json::Object(e)]).len() == 0,
    decreases b.len(),
{
    reveal_with_fuel(thinking_texts, 2);
    reveal_with_fuel(parsed_chunks, 2);
    reveal_with_fuel(parsed_calls, 2);
    reveal_with_fuel(parsed_choices, 2);
    assert(seq![Json::Object(e)].drop_last() =~= Seq::<Json>::empty());
    if b.len() == 0 {
        assert(a + b =~= a);
        assert(thinking_texts(a) + thinking_texts(b) =~= thinking_texts(a));
        assert(parsed_chunks(a) + parsed_chunks(b) =~= parsed_chunks(a));
        assert(parsed_calls(a) + parsed_calls(b) =~= parsed_calls(a));
        assert(parsed_choices(a) + parsed_choices(b) =~= parsed_choices(a));
    } else {
        law_lists_are_read_in_order(a, b.drop_last(), e);
        assert((a + b).drop_last() =~= a + b.drop_last());
        assert((a + b).last() == b.last());
        assert(thinking_texts(a + b) =~= thinking_texts(a) + thinking_texts(b));
        assert(parsed_chunks(a + b) =~= parsed_chunks(a) + parsed_chunks(b));
        assert(parsed_calls(a + b) =~= parsed_calls(a) + parsed_calls(b));
        assert(parsed_choices(a + b) =~= parsed_choices(a) + parsed_choices(b));
    }
}

/// A choice is read from its delta: why it ends, what it says and what it calls.
pub proof fn law_choice_is_read(e: Entries, delta: Entries)
    requires
        object_at(e, "delta"@) == Some(delta),
    ensures
        parsed_choice(e) matches Some(choice) && choice.finish_reason == str_at(
            e,
            "finish_reason"@,
        ) && choice.content == parsed_content(delta) && (array_at(delta, "tool_calls"@) matches
            Some(list) ==> choice.tool_calls == parsed_calls(list)) && (array_at(
            delta,
            "tool_calls"@,
        ) is None ==> choice.tool_calls.len() == 0),
        !has_key(delta, "content"@) ==> parsed_content(delta) is None,
        array_at(delta, "content"@) matches Some(list) ==> parsed_content(delta) == Some(
            Said::Chunks(parsed_chunks(list)),
        ),
{
}

/// A thought is read from its parts.
pub proof fn law_thought_is_read(e: Entries)
    requires
        str_at(e, "type"@) == Some("thinking"@),
    ensures
        array_at(e, "thinking"@) matches Some(list) ==> parsed_chunk(e) == Some(
            Chunk::Thinking(thinking_texts(list)),
        ),
        array_at(e, "thinking"@) is None ==> (parsed_chunk(e) matches Some(Chunk::Thinking(list))
            && list.len() == 0),
{
}

/// A completion is read with its id, its usage and its choices.
pub proof fn law_completion_is_read(e: Entries)
    ensures
        ({
            let c = parsed_completion(e);
            &&& c.id == str_at(e, "id"@)
            &&& object_at(e, "usage"@) matches Some(usage) ==> c.usage == Some(parsed_usage(usage))
            &&& object_at(e, "usage"@) is None ==> c.usage is None
            &&& array_at(e, "choices"@) matches Some(list) ==> c.choices == parsed_choices(list)
            &&& array_at(e, "choices"@) is None ==> c.choices.len() == 0
        }),
{
}

/// An event without data says nothing, one that is done says so, and any other has
/// to be a completion with choices.
pub proof fn law_event_is_read(
    raw: Seq<char>,
    e: Entries,
    parse: spec_fn(Seq<char>) -> Option<Json>,
)
    ensures
        event_data(raw).len() == 0 ==> (parsed_event(raw, parse) matches Ok(None)),
        event_data(raw) == "[DONE]"@ ==> (parsed_event(raw, parse) matches Ok(
            Some(StreamEvent::Done),
        )),
        event_data(raw).len() > 0 && event_data(raw) != "[DONE]"@ ==> {
            &&& parse(event_data(raw)) is None ==> parsed_event(raw, parse) is Err
            &&& parse(event_data(raw)) == Some(Json::Object(e)) && array_at(e, "choices"@) is Some
                ==> parsed_event(raw, parse) == Ok::<Option<StreamEvent>, Seq<char>>(
                Some(StreamEvent::Data(parsed_completion(e))),
            )
            &&& parse(event_data(raw)) == Some(Json::Object(e)) && array_at(e, "choices"@) is None
                ==> parsed_event(raw, parse) is Err
        },
{
    reveal_strlit("[DONE]");
    assert("[DONE]"@.len() == 6);
}

/// A call without an id of its own gets one that its index gives, and is known by
/// both.
pub proof fn law_calls_without_ids(d: CallDelta, n: nat)
    requires
        n < 1_000_000_000_000_000_000,
        d.index == Some(whole(n as int)),
    ensures
        d.id is None ==> call_id(d) == candidate("toolcall:"@ + decimal(n), 0),
        d.id == Some("null"@) ==> call_id(d) == candidate("toolcall:"@ + decimal(n), 0),
        d.id matches Some(id) ==> id != "null"@ ==> call_id(d) == id && call_key(d) == id + ":"@
            + decimal(n),
{
    crate::laws::json_texts::law_whole_numbers_are_written(n);
}

/// Text goes on where text is streamed, and else begins a block of its own, behind
/// the end of the block before it; the block that is streamed ends with all that was
/// said in it.
pub proof fn law_blocks_begin_and_end(p: Progress, said: Seq<char>, delta: Seq<char>)
    requires
        p.reply.content.len() > 0,
    ensures
        p.current == Some(Current::Text(said)) ==> {
            let after = text_streamed(p, delta);
            let at = p.reply.content.len() - 1;
            &&& after.reply.content.len() == p.reply.content.len()
            &&& after.reply.content[at] matches Block::Text(block) && block.text == said + delta
            &&& after.current == Some(Current::Text(said + delta))
            &&& after.sent == p.sent.push(
                Event::TextDelta { content_index: at, delta, partial: after.reply },
            )
            &&& current_finished(p).sent == p.sent.push(
                Event::TextEnd { content_index: at, content: said, partial: p.reply },
            )
        },
        p.current == Some(Current::Thinking(said)) ==> {
            let after = thinking_streamed(p, delta);
            let at = p.reply.content.len() - 1;
            &&& after.reply.content.len() == p.reply.content.len()
            &&& after.reply.content[at] matches Block::Thinking(block) && block.thinking == said
                + delta
            &&& after.current == Some(Current::Thinking(said + delta))
            &&& current_finished(p).sent == p.sent.push(
                Event::ThinkingEnd { content_index: at, content: said, partial: p.reply },
            )
        },
        p.current is None ==> {
            let after = text_streamed(p, delta);
            let n = p.reply.content.len() as int;
            &&& after.reply.content.len() == n + 1
            &&& after.reply.content[n] matches Block::Text(block) && block.text =~= delta
            &&& after.sent.len() == p.sent.len() + 2
            &&& after.sent[p.sent.len() as int] is TextStart
            &&& current_finished(p) == p
        },
        !(p.current matches Some(Current::Text(_))) && p.current is Some ==> text_streamed(
            p,
            delta,
        ).sent[p.sent.len() as int] == current_finished(p).sent.last(),
{
}

/// The calls of a reply end in the order in which they began, each with the call as
/// it then is.
pub proof fn law_calls_end(
    m: Reply,
    sent: Seq<Event>,
    list: Seq<(Seq<char>, int)>,
    key: Seq<char>,
    at: int,
)
    requires
        0 <= at < m.content.len(),
        m.content[at] is ToolCall,
    ensures
        calls_ended(m, sent, Seq::empty()) == sent,
        calls_ended(m, sent, list.push((key, at))) == calls_ended(m, sent, list).push(
            Event::ToolCallEnd {
                content_index: at,
                tool_call: m.content[at]->ToolCall_0,
                partial: m,
            },
        ),
{
    assert(list.push((key, at)).drop_last() =~= list);
}

} // verus!
