//! How a reply ends: which reason of a provider stands for which of ours, and what
//! is said of an end that is none.
use vstd::prelude::*;
use crate::api::anthropic_messages::events::StreamEvent;
use crate::api::finish::{last_event, raw_stop_error, stop_error};
use crate::api::headers::Pairs;
use crate::api::openai_stream::{progress_wf, step, OutputItem, Response, WireEvent};
use crate::json::{array_at, object_at, str_at, text_or_empty, Entries, Json};
use crate::types::{calls_tool, Event, Model, Pricing, Reply, StopReason};

verus! {

proof fn lemma_statuses()
    ensures
        "completed"@ != "incomplete"@,
        "completed"@ != "failed"@,
        "completed"@ != "cancelled"@,
        "incomplete"@ != "failed"@,
        "incomplete"@ != "cancelled"@,
        "failed"@ != "cancelled"@,
{
    reveal_strlit("completed");
    reveal_strlit("incomplete");
    reveal_strlit("failed");
    reveal_strlit("cancelled");
    assert("completed"@.len() != "incomplete"@.len());
    assert("completed"@[1] == 'o' && "cancelled"@[1] == 'a');
    assert("failed"@.len() != "completed"@.len());
    assert("failed"@.len() != "incomplete"@.len());
    assert("incomplete"@.len() != "cancelled"@.len());
}

proof fn lemma_backfilling_keeps_calls(
    m: Reply,
    reasoning: Seq<(Seq<char>, int)>,
    output: Seq<OutputItem>,
    parse: spec_fn(Seq<char>) -> Option<Json>,
)
    requires
        crate::api::openai_stream::all_below(reasoning, m.content.len() as int),
    ensures
        ({
            let after = crate::api::openai_stream::all_backfilled(m, reasoning, output, parse);
            &&& after.content.len() == m.content.len()
            &&& forall|i: int|
                0 <= i < m.content.len() ==> ((#[trigger] after.content[i]) is ToolCall
                    <==> m.content[i] is ToolCall)
            &&& after == (Reply { content: after.content, ..m })
        }),
    decreases output.len(),
{
    if output.len() > 0 {
        lemma_backfilling_keeps_calls(m, reasoning, output.drop_last(), parse);
        if let OutputItem::Reasoning(
            crate::api::openai_stream::ReasoningItem { id: Some(id), .. },
        ) = output.last() {
            crate::json::lemma_key_index(reasoning, id);
        }
    }
}

/// A response that ends gives the reply its id, its usage and its stop reason: a
/// completed one stops, or asks for a tool where the reply calls one; one that ran
/// out of output tokens stops for its length; one that is incomplete otherwise,
/// that failed or that was cancelled is an error. The end is the end of the stream.
pub proof fn law_response_ends(
    p: crate::api::openai_stream::Progress,
    response: Response,
    properties: Pairs,
    parse: spec_fn(Seq<char>) -> Option<Json>,
    read: spec_fn(Seq<char>) -> Json,
)
    requires
        progress_wf(p),
    ensures
        ({
            let (end, error) = step(p, WireEvent::Completed(response), properties, parse, read);
            let m = end.reply;
            &&& step(p, WireEvent::Incomplete(response), properties, parse, read) == (end, error)
            &&& error is None && end.terminal && end.sent == p.sent
            &&& response.id is Some ==> m.response_id == response.id
            &&& response.id is None ==> m.response_id == p.reply.response_id
            &&& response.usage is None ==> m.usage == p.reply.usage
            &&& response.usage is Some ==> m.usage == crate::api::openai_stream::usage_of(
                response.usage->0,
            )
            &&& response.status is None || response.status == Some("completed"@) ==> {
                &&& m.error_message is None
                &&& calls_tool(p.reply) ==> m.stop_reason == StopReason::ToolUse
                &&& !calls_tool(p.reply) ==> m.stop_reason == StopReason::Stop
            }
            &&& response.status == Some("incomplete"@) ==> {
                &&& response.incomplete_reason == Some("max_output_tokens"@) ==> m.stop_reason
                    == StopReason::Length && m.error_message is None
                &&& response.incomplete_reason != Some("max_output_tokens"@) ==> m.stop_reason
                    == StopReason::Error && m.error_message is Some
                &&& response.incomplete_reason is Some && response.incomplete_reason->0
                    != "max_output_tokens"@ ==> m.error_message == Some(
                    "Response incomplete: "@ + response.incomplete_reason->0,
                )
                &&& response.incomplete_reason is None ==> m.error_message == Some(
                    "Response incomplete without a provider reason"@,
                )
            }
            &&& response.status == Some("failed"@) || response.status == Some("cancelled"@)
                ==> m.stop_reason == StopReason::Error
            &&& response.status is Some && response.incomplete_reason is None ==> m.raw_stop_reason
                == response.status
            &&& response.status is Some && response.incomplete_reason is Some ==> m.raw_stop_reason
                == Some(response.status->0 + "."@ + response.incomplete_reason->0)
        }),
{
    reveal(step);
    lemma_statuses();
    lemma_backfilling_keeps_calls(p.reply, p.reasoning, response.output, parse);
    let after = crate::api::openai_stream::all_backfilled(
        p.reply,
        p.reasoning,
        response.output,
        parse,
    );
    assert(calls_tool(after) == calls_tool(p.reply)) by {
        if calls_tool(p.reply) {
            let i = choose|i: int|
                0 <= i < p.reply.content.len() && (#[trigger] p.reply.content[i]) is ToolCall;
            assert(after.content[i] is ToolCall);
        }
        if calls_tool(after) {
            let i = choose|i: int|
                0 <= i < after.content.len() && (#[trigger] after.content[i]) is ToolCall;
            assert(p.reply.content[i] is ToolCall);
        }
    }
}

/// A response that failed ends the stream with its error, and a broken stream with
/// the code and the message that it gives.
pub proof fn law_failures_are_told(
    p: crate::api::openai_stream::Progress,
    response: Response,
    code: Option<Seq<char>>,
    message: Option<Seq<char>>,
    properties: Pairs,
    parse: spec_fn(Seq<char>) -> Option<Json>,
    read: spec_fn(Seq<char>) -> Json,
)
    ensures
        ({
            let (end, error) = step(p, WireEvent::Failed(response), properties, parse, read);
            &&& end.reply.raw_stop_reason == response.status
            &&& end.reply.content == p.reply.content && end.sent == p.sent
            &&& response.error matches Some((code, message)) ==> error == Some(
                code + ": "@ + message,
            )
            &&& response.error is None && response.incomplete_reason is Some ==> error == Some(
                "incomplete: "@ + response.incomplete_reason->0,
            )
            &&& response.error is None && response.incomplete_reason is None ==> error == Some(
                "Unknown error (no error details in response)"@,
            )
        }),
        step(p, WireEvent::Broken(code, message), properties, parse, read) == (
            p,
            Some("Error Code "@ + text_or_empty(code) + ": "@ + text_or_empty(message)),
        ),
{
    reveal(step);
}

/// The first event of a response gives the reply its id.
pub proof fn law_created_response_gives_its_id(
    p: crate::api::openai_stream::Progress,
    response: Response,
    properties: Pairs,
    parse: spec_fn(Seq<char>) -> Option<Json>,
    read: spec_fn(Seq<char>) -> Json,
)
    ensures
        ({
            let (end, error) = step(p, WireEvent::Created(response), properties, parse, read);
            &&& error is None
            &&& end.reply.response_id == response.id
            &&& end.reply.content == p.reply.content && end.sent == p.sent
        }),
{
    reveal(step);
}

/// The reasons for which a chat completion finishes.
pub proof fn law_completions_reasons(reason: Seq<char>)
    ensures
        ({
            let (stop, error) = crate::api::openai_completions::stream::stop_reason_of(reason);
            &&& reason == "stop"@ || reason == "end"@ ==> stop == StopReason::Stop
            &&& reason == "length"@ ==> stop == StopReason::Length
            &&& reason == "function_call"@ || reason == "tool_calls"@ ==> stop
                == StopReason::ToolUse
            &&& reason == "content_filter"@ || reason == "network_error"@ ==> stop
                == StopReason::Error && error == Some("Provider finish_reason: "@ + reason)
            &&& stop == StopReason::Error <==> error is Some
            &&& stop == StopReason::Error ==> error == Some("Provider finish_reason: "@ + reason)
        }),
{
    reveal_strlit("stop");
    reveal_strlit("end");
    reveal_strlit("length");
    reveal_strlit("function_call");
    reveal_strlit("tool_calls");
    reveal_strlit("content_filter");
    reveal_strlit("network_error");
    assert("stop"@.len() != "length"@.len() && "end"@.len() != "length"@.len());
    assert("stop"@.len() != "function_call"@.len() && "end"@.len() != "function_call"@.len());
    assert("stop"@.len() != "tool_calls"@.len() && "end"@.len() != "tool_calls"@.len());
    assert("length"@.len() != "function_call"@.len() && "length"@.len() != "tool_calls"@.len());
    assert("content_filter"@.len() == 14 && "network_error"@.len() == 13);
    assert("network_error"@[0] == 'n' && "function_call"@[0] == 'f');
}

/// The reason under `finish_reason` of the first choice is taken over as it is and
/// for what it stands for.
pub proof fn law_finish_reason_is_taken(
    p: crate::api::openai_completions::stream::Progress,
    e: Entries,
    choices: Seq<Json>,
    choice: Entries,
    reason: Seq<char>,
    model: Model,
    properties: Pairs,
    read: spec_fn(Seq<char>) -> Json,
    price: Pricing,
)
    requires
        array_at(e, "choices"@) == Some(choices),
        choices.len() > 0,
        choices[0] == Json::Object(choice),
        str_at(choice, "finish_reason"@) == Some(reason),
        reason.len() > 0,
        object_at(choice, "delta"@) is None,
    ensures
        ({
            let after = crate::api::openai_completions::stream::chunk_taken(
                p,
                Json::Object(e),
                model,
                properties,
                read,
                price,
            );
            &&& after.memory.has_finish_reason
            &&& after.reply.raw_stop_reason == Some(reason)
            &&& after.reply.stop_reason
                == crate::api::openai_completions::stream::stop_reason_of(reason).0
            &&& after.sent == p.sent
        }),
{
    reveal(crate::api::openai_completions::stream::chunk_taken);
}

/// The reasons for which a Messages reply stops.
pub proof fn law_messages_reasons(
    p: crate::api::anthropic_messages::stream::Progress,
    reason: Seq<char>,
    details: Option<Seq<char>>,
    oauth: bool,
    names: Seq<Seq<char>>,
    read: spec_fn(Seq<char>) -> Json,
    price: Pricing,
)
    ensures
        ({
            let m = crate::api::anthropic_messages::stream::event_taken(
                p,
                StreamEvent::MessageDelta {
                    stop_reason: Some(reason),
                    stop_details: details,
                    usage: None,
                },
                oauth,
                names,
                read,
                price,
            ).reply;
            &&& m.raw_stop_reason == Some(reason)
            &&& m.content == p.reply.content && m.usage == p.reply.usage
            &&& reason == "end_turn"@ || reason == "pause_turn"@ || reason == "stop_sequence"@
                ==> m.stop_reason == StopReason::Stop && m.error_message == p.reply.error_message
            &&& reason == "max_tokens"@ ==> m.stop_reason == StopReason::Length
            &&& reason == "tool_use"@ ==> m.stop_reason == StopReason::ToolUse
            &&& reason == "refusal"@ ==> m.stop_reason == StopReason::Error && (details is Some
                ==> m.error_message == details) && (details is None ==> m.error_message == Some(
                "The model refused to complete the request"@,
            ))
            &&& reason == "sensitive"@ ==> m.stop_reason == StopReason::Error && m.error_message
                == Some("Provider stopped with: sensitive"@)
        }),
{
    reveal(crate::api::anthropic_messages::stream::event_taken);
    reveal_strlit("end_turn");
    reveal_strlit("pause_turn");
    reveal_strlit("stop_sequence");
    reveal_strlit("max_tokens");
    reveal_strlit("tool_use");
    reveal_strlit("refusal");
    reveal_strlit("sensitive");
    assert("end_turn"@[0] == 'e' && "tool_use"@[0] == 't');
    assert("pause_turn"@[0] == 'p' && "max_tokens"@[0] == 'm');
    assert("end_turn"@.len() == 8 && "tool_use"@.len() == 8 && "pause_turn"@.len() == 10);
    assert("max_tokens"@.len() == 10 && "stop_sequence"@.len() == 13 && "refusal"@.len() == 7);
    assert("sensitive"@.len() == 9);
}

/// The start of a Messages reply gives its id, and only its stop ends it.
pub proof fn law_messages_begin_and_stop(
    p: crate::api::anthropic_messages::stream::Progress,
    id: Seq<char>,
    oauth: bool,
    names: Seq<Seq<char>>,
    read: spec_fn(Seq<char>) -> Json,
    price: Pricing,
)
    ensures
        ({
            let begun = crate::api::anthropic_messages::stream::event_taken(
                p,
                StreamEvent::MessageStart { id, usage: None },
                oauth,
                names,
                read,
                price,
            );
            let stopped = crate::api::anthropic_messages::stream::event_taken(
                begun,
                StreamEvent::MessageStop,
                oauth,
                names,
                read,
                price,
            );
            &&& begun.reply.response_id == Some(id)
            &&& begun.reply.content == p.reply.content && begun.sent == p.sent
            &&& !p.ended ==> crate::api::anthropic_messages::stream::cut_short(begun) == Some(
                "Anthropic stream ended before message_stop"@,
            )
            &&& crate::api::anthropic_messages::stream::cut_short(stopped) is None
            &&& stopped.reply == begun.reply
        }),
{
    reveal(crate::api::anthropic_messages::stream::event_taken);
}

/// The reasons for which a Gemini reply finishes, where it calls no tool.
pub proof fn law_gemini_reasons(m: Reply, reason: Seq<char>)
    requires
        !calls_tool(m),
    ensures
        ({
            let after = crate::api::google_shared::stream::finish_taken(m, Some(reason));
            &&& after.raw_stop_reason == Some(reason)
            &&& reason == "STOP"@ ==> after.stop_reason == StopReason::Stop
            &&& reason == "MAX_TOKENS"@ ==> after.stop_reason == StopReason::Length
            &&& reason != "STOP"@ && reason != "MAX_TOKENS"@ ==> after.stop_reason
                == StopReason::Error
            &&& after.content == m.content
        }),
{
    reveal_strlit("STOP");
    reveal_strlit("MAX_TOKENS");
    assert("STOP"@.len() != "MAX_TOKENS"@.len());
}

/// The reasons for which a Mistral reply finishes.
pub proof fn law_mistral_reasons(m: Reply, reason: Seq<char>)
    ensures
        ({
            let after = crate::api::mistral_conversations::stream::end_taken(m, Some(reason));
            &&& after.raw_stop_reason == Some(reason)
            &&& reason == "stop"@ ==> after.stop_reason == StopReason::Stop
            &&& reason == "length"@ || reason == "model_length"@ ==> after.stop_reason
                == StopReason::Length
            &&& reason == "tool_calls"@ ==> after.stop_reason == StopReason::ToolUse
            &&& reason != "stop"@ && reason != "length"@ && reason != "model_length"@ && reason
                != "tool_calls"@ ==> after.stop_reason == StopReason::Error && after.error_message
                == Some("Provider stopped with: "@ + reason)
            &&& after.content == m.content
        }),
{
    reveal_strlit("stop");
    reveal_strlit("length");
    reveal_strlit("model_length");
    reveal_strlit("tool_calls");
    assert("stop"@.len() != "length"@.len() && "stop"@.len() != "model_length"@.len());
    assert("stop"@.len() != "tool_calls"@.len() && "tool_calls"@.len() != "length"@.len());
    assert("tool_calls"@.len() != "model_length"@.len());
}

/// The last event of a reply: one that ended well is done, for the reason that it
/// stopped for; one that did not carries the error, and nothing of the reply is
/// lost.
pub proof fn law_last_event_tells_the_end(m: Reply, error: Seq<char>)
    ensures
        last_event(m, None) matches Event::Done { reason, message } && message == m && {
            &&& m.stop_reason == StopReason::Stop ==> reason == "stop"@
            &&& m.stop_reason == StopReason::Length ==> reason == "length"@
            &&& m.stop_reason == StopReason::ToolUse ==> reason == "toolUse"@
        },
        last_event(m, Some(error)) matches Event::Error { reason, error: told } && {
            &&& reason == "error"@
            &&& told.stop_reason == StopReason::Error
            &&& told.error_message == Some(error)
            &&& told.content == m.content
            &&& told.usage == m.usage
            &&& told.response_id == m.response_id
            &&& told.raw_stop_reason == m.raw_stop_reason
        },
{
}

/// A reply ended well exactly if it stopped for one of the good reasons, and what
/// is said of another end is the message of the reply where it has one.
pub proof fn law_good_ends(m: Reply, no_reason: Seq<char>)
    ensures
        stop_error(m, no_reason) is None <==> m.stop_reason == StopReason::Stop || m.stop_reason
            == StopReason::Length || m.stop_reason == StopReason::ToolUse,
        raw_stop_error(m, no_reason) is None <==> stop_error(m, no_reason) is None,
        m.stop_reason == StopReason::Pending ==> stop_error(m, no_reason) == Some(no_reason)
            && raw_stop_error(m, no_reason) == Some(no_reason),
        m.stop_reason == StopReason::Error || m.stop_reason == StopReason::Aborted ==> {
            &&& m.error_message is Some ==> stop_error(m, no_reason) == m.error_message
            &&& m.error_message is None ==> stop_error(m, no_reason) == Some(
                "An unknown error occurred"@,
            )
            &&& m.raw_stop_reason is Some ==> raw_stop_error(m, no_reason) == Some(
                "Provider stopped with: "@ + m.raw_stop_reason->0,
            )
        },
{
}

/// A chat completion without a finish reason has ended badly, unless its provider
/// gives none; then it asks for a tool where it calls one and stops otherwise.
pub proof fn law_completion_ends(m: Reply, has_finish_reason: bool, supports: bool)
    ensures
        ({
            let settled = crate::api::openai_completions::stream::stop_settled(
                m,
                has_finish_reason,
                supports,
            );
            let error = crate::api::openai_completions::stream::ending_error(
                settled,
                has_finish_reason,
                supports,
            );
            &&& supports && !has_finish_reason && m.stop_reason != StopReason::Error
                && m.stop_reason != StopReason::Aborted ==> error == Some(
                "Stream ended without finish_reason"@,
            )
            &&& !supports && !has_finish_reason && m.stop_reason != StopReason::Aborted ==> {
                &&& calls_tool(m) ==> settled.stop_reason == StopReason::ToolUse
                &&& !calls_tool(m) ==> settled.stop_reason == StopReason::Stop
                &&& error is None
            }
            &&& m.stop_reason == StopReason::Aborted ==> error == Some("Request was aborted"@)
            &&& has_finish_reason && m.stop_reason == StopReason::Error && m.error_message is Some
                ==> error == m.error_message
            &&& has_finish_reason && (m.stop_reason == StopReason::Stop || m.stop_reason
                == StopReason::Length || m.stop_reason == StopReason::ToolUse) ==> settled == m
                && error is None
            &&& settled.content == m.content
        }),
{
}

} // verus!
