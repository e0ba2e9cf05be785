//! How the events of a Messages stream are read, and what each of them sends on.
use vstd::prelude::*;
use crate::api::anthropic_messages::events::{
    events_parsed, parsed_event, parsed_usage, read_event, BlockDelta, BlockStart, StreamEvent,
};
use crate::api::anthropic_messages::sse::SseEvent;
use crate::api::anthropic_messages::stream::{event_taken, Progress};
use crate::json::{get, no_entries, number_at, object_at, str_at, Entries, Json};
use crate::laws::completions_stream::field;
use crate::number::{whole, Number};
use crate::types::{Block, Event, Pricing};

verus! {

/// The number of a field, which is zero where the field is missing.
pub open spec fn count(e: Entries, key: Seq<char>) -> Number {
    match number_at(e, key) {
        Some(n) => n,
        None => whole(0),
    }
}

proof fn lemma_event_kinds()
    ensures
        "message_start"@ != "message_delta"@ && "message_start"@ != "message_stop"@
            && "message_start"@ != "content_block_start"@ && "message_start"@
            != "content_block_delta"@ && "message_start"@ != "content_block_stop"@,
        "message_delta"@ != "message_stop"@ && "message_delta"@ != "content_block_start"@
            && "message_delta"@ != "content_block_delta"@ && "message_delta"@
            != "content_block_stop"@,
        "message_stop"@ != "content_block_start"@ && "message_stop"@ != "content_block_delta"@
            && "message_stop"@ != "content_block_stop"@,
        "content_block_start"@ != "content_block_delta"@ && "content_block_start"@
            != "content_block_stop"@ && "content_block_delta"@ != "content_block_stop"@,
        "message_start"@.len() > 0 && "message_delta"@.len() > 0 && "message_stop"@.len() > 0
            && "content_block_start"@.len() > 0 && "content_block_delta"@.len() > 0
            && "content_block_stop"@.len() > 0 && "error"@.len() > 0,
        "error"@ != "message_start"@ && "error"@ != "message_delta"@ && "error"@ != "message_stop"@
            && "error"@ != "content_block_start"@ && "error"@ != "content_block_delta"@ && "error"@
            != "content_block_stop"@,
{
    reveal_strlit("error");
    reveal_strlit("message_start");
    reveal_strlit("message_delta");
    reveal_strlit("message_stop");
    reveal_strlit("content_block_start");
    reveal_strlit("content_block_delta");
    reveal_strlit("content_block_stop");
    assert("error"@.len() == 5 && "message_stop"@.len() == 12);
    assert("message_start"@.len() == 13 && "message_delta"@.len() == 13);
    assert("content_block_start"@.len() == 19 && "content_block_delta"@.len() == 19
        && "content_block_stop"@.len() == 18);
    assert("message_start"@[8] == 's' && "message_delta"@[8] == 'd');
    assert("content_block_start"@[14] == 's' && "content_block_delta"@[14] == 'd');
}

proof fn lemma_block_kinds()
    ensures
        "text"@ != "thinking"@ && "text"@ != "redacted_thinking"@ && "text"@ != "tool_use"@,
        "thinking"@ != "redacted_thinking"@ && "thinking"@ != "tool_use"@ && "redacted_thinking"@
            != "tool_use"@,
        "text_delta"@ != "thinking_delta"@ && "text_delta"@ != "input_json_delta"@ && "text_delta"@
            != "signature_delta"@ && "thinking_delta"@ != "input_json_delta"@ && "thinking_delta"@
            != "signature_delta"@ && "input_json_delta"@ != "signature_delta"@,
{
    reveal_strlit("text");
    reveal_strlit("thinking");
    reveal_strlit("redacted_thinking");
    reveal_strlit("tool_use");
    reveal_strlit("text_delta");
    reveal_strlit("thinking_delta");
    reveal_strlit("input_json_delta");
    reveal_strlit("signature_delta");
    assert("text"@.len() == 4 && "thinking"@.len() == 8 && "redacted_thinking"@.len() == 17
        && "tool_use"@.len() == 8);
    assert("thinking"@[1] == 'h' && "tool_use"@[1] == 'o');
    assert("text_delta"@.len() == 10 && "thinking_delta"@.len() == 14 && "input_json_delta"@.len()
        == 16 && "signature_delta"@.len() == 15);
}

/// The start of a block is read with what it says: a text with its text, thinking
/// with its signature, redacted thinking with its data, and a tool call with its
/// id, its name and its input.
pub proof fn law_block_start_is_read(e: Entries, block: Entries)
    requires
        str_at(e, "type"@) == Some("content_block_start"@),
        object_at(e, "content_block"@) == Some(block),
    ensures
        ({
            let kind = str_at(block, "type"@);
            let read = read_event(e);
            let index = count(e, "index"@);
            &&& kind == Some("text"@) ==> read == Ok::<Option<StreamEvent>, Seq<char>>(
                Some(
                    StreamEvent::BlockStart { index, block: BlockStart::Text(field(block, "text"@)) },
                ),
            )
            &&& kind == Some("thinking"@) ==> read == Ok::<Option<StreamEvent>, Seq<char>>(
                Some(
                    StreamEvent::BlockStart {
                        index,
                        block: BlockStart::Thinking {
                            thinking: field(block, "thinking"@),
                            signature: field(block, "signature"@),
                        },
                    },
                ),
            )
            &&& kind == Some("redacted_thinking"@) ==> read == Ok::<
                Option<StreamEvent>,
                Seq<char>,
            >(
                Some(
                    StreamEvent::BlockStart {
                        index,
                        block: BlockStart::RedactedThinking(field(block, "data"@)),
                    },
                ),
            )
            &&& kind == Some("tool_use"@) ==> (read matches Ok(
                Some(StreamEvent::BlockStart { index: at, block: BlockStart::ToolUse { id, name, input } }),
            ) && at == index && id == field(block, "id"@) && name == field(block, "name"@) && (get(
                block,
                "input"@,
            ) matches Some(given) ==> input == given) && (get(block, "input"@) is None ==> input
                == Json::Object(no_entries())))
            &&& kind is None ==> read is Err
        }),
{
    lemma_event_kinds();
    lemma_block_kinds();
}

/// A part of a block is read with what it says.
pub proof fn law_block_part_is_read(e: Entries, delta: Entries)
    requires
        str_at(e, "type"@) == Some("content_block_delta"@),
        object_at(e, "delta"@) == Some(delta),
    ensures
        ({
            let kind = str_at(delta, "type"@);
            let read = read_event(e);
            let index = count(e, "index"@);
            &&& kind == Some("text_delta"@) ==> read == Ok::<Option<StreamEvent>, Seq<char>>(
                Some(
                    StreamEvent::BlockDelta { index, delta: BlockDelta::Text(field(delta, "text"@)) },
                ),
            )
            &&& kind == Some("thinking_delta"@) ==> read == Ok::<Option<StreamEvent>, Seq<char>>(
                Some(
                    StreamEvent::BlockDelta {
                        index,
                        delta: BlockDelta::Thinking(field(delta, "thinking"@)),
                    },
                ),
            )
            &&& kind == Some("input_json_delta"@) ==> read == Ok::<Option<StreamEvent>, Seq<char>>(
                Some(
                    StreamEvent::BlockDelta {
                        index,
                        delta: BlockDelta::InputJson(field(delta, "partial_json"@)),
                    },
                ),
            )
            &&& kind == Some("signature_delta"@) ==> read == Ok::<Option<StreamEvent>, Seq<char>>(
                Some(
                    StreamEvent::BlockDelta {
                        index,
                        delta: BlockDelta::Signature(field(delta, "signature"@)),
                    },
                ),
            )
            &&& kind is None ==> read is Err
        }),
{
    lemma_event_kinds();
    lemma_block_kinds();
}

/// The events of the message itself are read with what they say.
pub proof fn law_message_events_are_read(e: Entries)
    ensures
        ({
            let kind = str_at(e, "type"@);
            let read = read_event(e);
            &&& kind == Some("content_block_stop"@) ==> read == Ok::<
                Option<StreamEvent>,
                Seq<char>,
            >(Some(StreamEvent::BlockStop { index: count(e, "index"@) }))
            &&& kind == Some("message_stop"@) ==> read == Ok::<Option<StreamEvent>, Seq<char>>(
                Some(StreamEvent::MessageStop),
            )
            &&& kind == Some("message_start"@) && object_at(e, "message"@) is None ==> read is Err
            &&& kind == Some("message_start"@) ==> (object_at(e, "message"@) matches Some(
                message,
            ) ==> (read matches Ok(Some(StreamEvent::MessageStart { id, usage })) && id == field(
                message,
                "id"@,
            ) && (usage is Some <==> object_at(message, "usage"@) is Some) && (object_at(
                message,
                "usage"@,
            ) matches Some(reported) ==> usage == Some(parsed_usage(reported)))))
            &&& kind == Some("message_delta"@) ==> (read matches Ok(
                Some(StreamEvent::MessageDelta { stop_reason, stop_details, usage }),
            ) && (object_at(e, "delta"@) matches Some(delta) ==> stop_reason == str_at(
                delta,
                "stop_reason"@,
            ) && stop_details == str_at(delta, "explanation"@)) && (object_at(e, "delta"@) is None
                ==> stop_reason is None && stop_details is None) && (usage is Some <==> object_at(
                e,
                "usage"@,
            ) is Some) && (object_at(e, "usage"@) matches Some(reported) ==> usage == Some(
                parsed_usage(reported),
            )))
            &&& kind is None ==> read == Ok::<Option<StreamEvent>, Seq<char>>(None)
        }),
{
    lemma_event_kinds();
}

/// Each count of a usage is read from the field of its name.
pub proof fn law_usage_is_read(e: Entries)
    ensures
        ({
            let u = parsed_usage(e);
            &&& u.input_tokens == count(e, "input_tokens"@)
            &&& u.output_tokens == count(e, "output_tokens"@)
            &&& u.cache_read_input_tokens == count(e, "cache_read_input_tokens"@)
            &&& u.cache_creation_input_tokens == count(e, "cache_creation_input_tokens"@)
            &&& object_at(e, "cache_creation"@) matches Some(made) ==> u.ephemeral_1h_input_tokens
                == count(made, "ephemeral_1h_input_tokens"@)
            &&& object_at(e, "cache_creation"@) is None ==> u.ephemeral_1h_input_tokens == whole(0)
            &&& object_at(e, "output_tokens_details"@) matches Some(details) ==> u.thinking_tokens
                == number_at(details, "thinking_tokens"@)
            &&& object_at(e, "output_tokens_details"@) is None ==> u.thinking_tokens is None
        }),
{
}

/// A server-sent event is read by its name: an error is its data, an event of a
/// message is what its data says, and any other is passed over.
pub proof fn law_server_events_are_read(
    sse: SseEvent,
    e: Entries,
    parse: spec_fn(Seq<char>) -> Result<Json, Seq<char>>,
)
    ensures
        sse.event == Some("error"@) ==> parsed_event(sse, parse) == Err::<
            Option<StreamEvent>,
            Seq<char>,
        >(sse.data),
        sse.event is None ==> parsed_event(sse, parse) == Ok::<Option<StreamEvent>, Seq<char>>(None),
        sse.event == Some("ping"@) ==> parsed_event(sse, parse) == Ok::<
            Option<StreamEvent>,
            Seq<char>,
        >(None),
        (sse.event == Some("message_start"@) || sse.event == Some("message_delta"@) || sse.event
            == Some("message_stop"@) || sse.event == Some("content_block_start"@) || sse.event
            == Some("content_block_delta"@) || sse.event == Some("content_block_stop"@)) ==> {
            &&& parse(sse.data) is Err ==> parsed_event(sse, parse) is Err
            &&& parse(sse.data) == Ok::<Json, Seq<char>>(Json::Object(e)) ==> {
                &&& read_event(e) is Ok ==> parsed_event(sse, parse) == read_event(e)
                &&& read_event(e) is Err ==> parsed_event(sse, parse) is Err
            }
        },
{
    lemma_event_kinds();
    reveal_strlit("error");
    reveal_strlit("ping");
    reveal_strlit("message_start");
    reveal_strlit("message_delta");
    reveal_strlit("message_stop");
    reveal_strlit("content_block_start");
    reveal_strlit("content_block_delta");
    reveal_strlit("content_block_stop");
    assert("ping"@.len() == 4);
}

/// The events of a list are read in order, none is lost, and the last thing that is
/// wrong is told.
pub proof fn law_events_are_read_in_order(
    a: Seq<SseEvent>,
    b: Seq<SseEvent>,
    sse: SseEvent,
    parse: spec_fn(Seq<char>) -> Result<Json, Seq<char>>,
)
    ensures
        events_parsed(a + b, parse).0 == events_parsed(a, parse).0 + events_parsed(b, parse).0,
        events_parsed(a + b, parse).1 == if events_parsed(b, parse).1 is Some {
            events_parsed(b, parse).1
        } else {
            events_parsed(a, parse).1
        },
        parsed_event(sse, parse) matches Ok(Some(event)) ==> events_parsed(seq![sse], parse) == (
            seq![event],
            None::<Seq<char>>,
        ),
        parsed_event(sse, parse) matches Err(message) ==> events_parsed(seq![sse], parse) == (
            Seq::<StreamEvent>::empty(),
            Some(message),
        ),
    decreases b.len(),
{
    reveal_with_fuel(events_parsed, 2);
    assert(seq![sse].drop_last() =~= Seq::<SseEvent>::empty());
    assert(Seq::<StreamEvent>::empty().push(parsed_event(sse, parse)->Ok_0->0) =~= seq![
        parsed_event(sse, parse)->Ok_0->0,
    ]);
    if b.len() == 0 {
        assert(a + b =~= a);
        assert(events_parsed(a, parse).0 + Seq::<StreamEvent>::empty() =~= events_parsed(
            a,
            parse,
        ).0);
    } else {
        law_events_are_read_in_order(a, b.drop_last(), sse, parse);
        assert((a + b).drop_last() =~= a + b.drop_last());
        assert((a + b).last() == b.last());
        let before = events_parsed(b.drop_last(), parse).0;
        if let Ok(Some(event)) = parsed_event(b.last(), parse) {
            assert(events_parsed(a, parse).0 + before.push(event) =~= (events_parsed(a, parse).0
                + before).push(event));
        }
    }
}

/// The start of a block stands at the end of the reply with what it says, and is
/// told there, once.
pub proof fn law_block_starts(
    p: Progress,
    index: Number,
    start: BlockStart,
    names: Seq<Seq<char>>,
    read: spec_fn(Seq<char>) -> Json,
    price: Pricing,
)
    ensures
        ({
            let after = event_taken(
                p,
                StreamEvent::BlockStart { index, block: start },
                false,
                names,
                read,
                price,
            );
            let at = p.reply.content.len() as int;
            let begun = after.reply.content.last();
            &&& after.reply.content.drop_last() =~= p.reply.content
            &&& after.sent.drop_last() =~= p.sent
            &&& after.positions.last() == (index, at)
            &&& after.positions.drop_last() =~= p.positions
            &&& start matches BlockStart::Text(text) ==> (begun matches Block::Text(block)
                && block.text == text) && after.sent.last() == (Event::TextStart {
                content_index: at,
                partial: after.reply,
            })
            &&& start matches BlockStart::Thinking { thinking, signature } ==> (
            begun matches Block::Thinking(block) && block.thinking == thinking
                && block.thinking_signature == Some(signature) && block.redacted is None)
                && after.sent.last() == (Event::ThinkingStart {
                content_index: at,
                partial: after.reply,
            })
            &&& start matches BlockStart::RedactedThinking(data) ==> (
            begun matches Block::Thinking(block) && block.thinking == "[Reasoning redacted]"@
                && block.thinking_signature == Some(data) && block.redacted == Some(true))
                && after.sent.last() == (Event::ThinkingStart {
                content_index: at,
                partial: after.reply,
            })
            &&& start matches BlockStart::ToolUse { id, name, input } ==> (
            begun matches Block::ToolCall(call) && call.id == id && call.name == name
                && call.arguments == input && call.thought_signature is None)
                && after.sent.last() == (Event::ToolCallStart {
                content_index: at,
                partial: after.reply,
            })
        }),
{
    reveal(event_taken);
}

/// A part of a block is told once, as it is, at the position of the block; a
/// signature is not told.
pub proof fn law_block_part_is_told(
    p: Progress,
    index: Number,
    at: int,
    delta: BlockDelta,
    oauth: bool,
    names: Seq<Seq<char>>,
    read: spec_fn(Seq<char>) -> Json,
    price: Pricing,
)
    requires
        get(p.positions, index) == Some(at),
        0 <= at < p.reply.content.len(),
    ensures
        ({
            let after = event_taken(
                p,
                StreamEvent::BlockDelta { index, delta },
                oauth,
                names,
                read,
                price,
            );
            let partial = after.reply;
            &&& delta matches BlockDelta::Text(text) ==> p.reply.content[at] is Text ==> after.sent
                == p.sent.push(Event::TextDelta { content_index: at, delta: text, partial })
            &&& delta matches BlockDelta::Thinking(text) ==> p.reply.content[at] is Thinking
                ==> after.sent == p.sent.push(
                Event::ThinkingDelta { content_index: at, delta: text, partial },
            )
            &&& delta matches BlockDelta::InputJson(text) ==> p.reply.content[at] is ToolCall
                ==> after.sent == p.sent.push(
                Event::ToolCallDelta { content_index: at, delta: text, partial },
            )
            &&& delta is Signature ==> after.sent == p.sent
        }),
{
    reveal(event_taken);
}

/// The end of a block is told once, with the whole of the block; a call ends with
/// the arguments that all of its parts make up, its id and its name.
pub proof fn law_block_end_is_told(
    p: Progress,
    index: Number,
    at: int,
    oauth: bool,
    names: Seq<Seq<char>>,
    read: spec_fn(Seq<char>) -> Json,
    price: Pricing,
)
    requires
        get(p.positions, index) == Some(at),
        0 <= at < p.reply.content.len(),
    ensures
        ({
            let after = event_taken(
                p,
                StreamEvent::BlockStop { index },
                oauth,
                names,
                read,
                price,
            );
            let partial = after.reply;
            let parts = match get(p.partial, at as u64) {
                Some(text) => text,
                None => Seq::empty(),
            };
            &&& p.reply.content[at] matches Block::Text(block) ==> partial == p.reply && after.sent
                == p.sent.push(Event::TextEnd { content_index: at, content: block.text, partial })
            &&& p.reply.content[at] matches Block::Thinking(block) ==> partial == p.reply
                && after.sent == p.sent.push(
                Event::ThinkingEnd { content_index: at, content: block.thinking, partial },
            )
            &&& p.reply.content[at] matches Block::ToolCall(call) ==> (
            partial.content[at] matches Block::ToolCall(now) && now.id == call.id && now.name
                == call.name && now.arguments == read(parts) && after.sent == p.sent.push(
                Event::ToolCallEnd { content_index: at, tool_call: now, partial },
            ))
        }),
{
    reveal(event_taken);
}

} // verus!
