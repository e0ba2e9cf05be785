//! What holds of whole streams, whoever sends them: how a reply begins, what the data
//! of a stream is taken for, and which adapter serves a model.
use vstd::prelude::*;
use crate::api::google_shared::stream::GoogleInterface;
use crate::api::headers::Pairs;
use crate::api::mistral_conversations::events::{events_collected, Collected, StreamEvent};
use crate::api::mistral_conversations::request::{
    effort_for, takes_effort, timeout_of, truncated, MistralOptions,
};
use crate::api::openai_codex_responses::auth::{base64_bytes, base64_result, unpadded};
use crate::api::openai_codex_responses::events::{codex_values, mapped, parsed_stream};
use crate::api::openai_codex_responses::request::codex_effort;
use crate::api::openai_codex_responses::retry::seconds_up;
use crate::api::openai_stream::{stream_error, Progress};
use crate::api::{adapter_of, Adapter};
use crate::json::Json;
use crate::number::{whole, Number};
use crate::text::decimal;
use crate::types::{
    calls_tool, mapped_level, new_reply, stop_reason_name, Model, Pricing, Reply, StopReason,
};

verus! {

/// Each interface has an adapter of its own, and an unknown one has none.
pub proof fn law_adapters()
    ensures
        adapter_of("openai"@) == Some(Adapter::OpenAiResponses),
        adapter_of("openai-completions"@) == Some(Adapter::OpenAiCompletions),
        adapter_of("openai-codex"@) == Some(Adapter::OpenAiCodex),
        adapter_of("anthropic"@) == Some(Adapter::Anthropic),
        adapter_of("google"@) == Some(Adapter::GoogleGenerativeAi),
        adapter_of("azure-openai-responses"@) == Some(Adapter::AzureOpenAiResponses),
        forall|api: Seq<char>|
            api != "openai"@ && api != "openai-completions"@ && api != "openai-codex"@ && api
                != "anthropic"@ && api != "google"@ && api != "azure-openai-responses"@
                ==> #[trigger] adapter_of(api) is None,
{
    reveal_strlit("openai");
    reveal_strlit("openai-completions");
    reveal_strlit("openai-codex");
    reveal_strlit("anthropic");
    reveal_strlit("google");
    reveal_strlit("azure-openai-responses");
    assert("openai"@.len() == 6 && "openai-completions"@.len() == 18 && "openai-codex"@.len() == 12
        && "anthropic"@.len() == 9 && "google"@.len() == 6 && "azure-openai-responses"@.len()
        == 22);
    assert("openai"@[0] == 'o' && "google"@[0] == 'g');
}

/// A reply begins with nothing but its names and its time.
pub proof fn law_reply_begins(
    api: Seq<char>,
    provider: Seq<char>,
    model: Seq<char>,
    timestamp: Number,
)
    ensures
        ({
            let m = new_reply(api, provider, model, timestamp);
            &&& m.content.len() == 0
            &&& m.api == api
            &&& m.provider == provider
            &&& m.model == model
            &&& m.timestamp == timestamp
            &&& m.stop_reason == StopReason::Pending
            &&& m.response_id is None && m.response_model is None
            &&& m.error_message is None && m.raw_stop_reason is None && m.end_turn is None
            &&& m.usage.input == whole(0) && m.usage.output == whole(0) && m.usage.cache_read
                == whole(0) && m.usage.cache_write == whole(0) && m.usage.total_tokens == whole(0)
            &&& m.usage.cost.total.parts == 0
            &&& !calls_tool(m)
        }),
{
}

/// A reply calls a tool where one of its blocks does.
pub proof fn law_calls_are_seen(m: Reply, i: int)
    ensures
        0 <= i < m.content.len() && m.content[i] is ToolCall ==> calls_tool(m),
        (forall|j: int| 0 <= j < m.content.len() ==> !((#[trigger] m.content[j]) is ToolCall))
            ==> !calls_tool(m),
{
}

/// Each stop reason is told by a name of its own.
pub proof fn law_reasons_have_names()
    ensures
        stop_reason_name(StopReason::Stop) == "stop"@,
        stop_reason_name(StopReason::Length) == "length"@,
        stop_reason_name(StopReason::ToolUse) == "toolUse"@,
        stop_reason_name(StopReason::Error) == "error"@,
        stop_reason_name(StopReason::Aborted) == "aborted"@,
{
}

/// A Responses stream fails with the error of an event or, where no event ended it,
/// for want of an end; else it does not fail.
pub proof fn law_stream_fails(p: Progress, error: Seq<char>)
    ensures
        stream_error((p, Some(error))) == Some(error),
        p.terminal ==> stream_error((p, None)) is None,
        !p.terminal ==> stream_error((p, None)) == Some(
            "OpenAI Responses stream ended before a terminal response event"@,
        ),
{
}

/// Data that cannot be read changes nothing, and data that can be read does what its
/// chunk does.
pub proof fn law_data_is_taken(
    p: crate::api::google_shared::stream::Progress,
    q: crate::api::openai_completions::stream::Progress,
    data: Seq<char>,
    interface: GoogleInterface,
    now: u64,
    model: Model,
    properties: Pairs,
    parse: spec_fn(Seq<char>) -> Option<Json>,
    read: spec_fn(Seq<char>) -> Json,
    price: Pricing,
)
    ensures
        parse(data) is None ==> crate::api::google_shared::stream::data_taken(
            p,
            data,
            interface,
            now,
            parse,
            price,
        ) == p,
        parse(data) matches Some(chunk) ==> crate::api::google_shared::stream::data_taken(
            p,
            data,
            interface,
            now,
            parse,
            price,
        ) == crate::api::google_shared::stream::chunk_taken(p, chunk, interface, now, price),
        data == "[DONE]"@ || parse(data) is None
            ==> crate::api::openai_completions::stream::data_taken(
            q,
            data,
            model,
            properties,
            parse,
            read,
            price,
        ) == q,
        data != "[DONE]"@ ==> (parse(data) matches Some(chunk)
            ==> crate::api::openai_completions::stream::data_taken(
            q,
            data,
            model,
            properties,
            parse,
            read,
            price,
        ) == crate::api::openai_completions::stream::chunk_taken(
            q,
            chunk,
            model,
            properties,
            read,
            price,
        )),
{
}

/// The events of a Mistral stream are collected in order up to its end: nothing that
/// comes later counts, and an event that says nothing changes nothing.
pub proof fn law_events_are_collected(
    c: Collected,
    a: Seq<Seq<char>>,
    b: Seq<Seq<char>>,
    raw: Seq<char>,
    parse: spec_fn(Seq<char>) -> Option<Json>,
)
    ensures
        events_collected(c, a + b, parse) == events_collected(
            events_collected(c, a, parse),
            b,
            parse,
        ),
        c.done ==> events_collected(c, seq![raw], parse) == c,
        !c.done ==> {
            let after = events_collected(c, seq![raw], parse);
            let said = crate::api::mistral_conversations::events::parsed_event(raw, parse);
            &&& said matches Ok(Some(StreamEvent::Done)) ==> after.done && after.events == c.events
            &&& said matches Ok(Some(StreamEvent::Data(event))) ==> !after.done && after.events
                == c.events.push(event)
            &&& said is Err || (said matches Ok(None)) ==> after == c
        },
    decreases a.len(),
{
    reveal_with_fuel(events_collected, 2);
    assert(seq![raw].drop_first() =~= Seq::<Seq<char>>::empty());
    assert(seq![raw][0] == raw);
    if a.len() == 0 {
        assert(a + b =~= b);
    } else {
        assert((a + b).drop_first() =~= a.drop_first() + b);
        assert((a + b)[0] == a[0]);
        law_events_are_collected(
            crate::api::mistral_conversations::events::event_collected(c, a[0], parse),
            a.drop_first(),
            b,
            raw,
            parse,
        );
    }
}

/// The data of a Codex stream comes to the events of all its values, or to what is
/// wrong with one that cannot be read.
pub proof fn law_codex_stream_is_read(
    list: Seq<Seq<char>>,
    check: spec_fn(Seq<char>) -> Result<Json, Seq<char>>,
    parse: spec_fn(Seq<char>) -> Option<Json>,
)
    ensures
        codex_values(list, check) matches Ok(values) ==> parsed_stream(list, check, parse)
            == mapped(Seq::empty(), values, parse),
        codex_values(list, check) matches Err(e) ==> parsed_stream(list, check, parse).0 is Err
            && parsed_stream(list, check, parse).0->Err_0 == e,
{
}

/// A base64 text without its padding, and why a text is none.
pub proof fn law_base64(s: Seq<char>, c: char)
    ensures
        unpadded(Seq::empty()).len() == 0,
        unpadded(s.push('=')) == unpadded(s),
        c != '=' ==> unpadded(s.push(c)) == unpadded(s).push(c),
        base64_bytes(s) matches Some(bytes) ==> base64_result(s) == Ok::<Seq<u8>, Seq<char>>(bytes),
        base64_bytes(s) is None ==> base64_result(s) is Err,
{
    assert(s.push('=').drop_last() =~= s);
    assert(s.push(c).drop_last() =~= s);
}

/// Whole seconds hold all of the milliseconds, and no second more.
pub proof fn law_seconds(millis: Number)
    requires
        0 < millis.nanos,
    ensures
        seconds_up(millis) * 1_000_000_000_000 >= millis.nanos,
        (seconds_up(millis) - 1) * 1_000_000_000_000 < millis.nanos,
{
}

/// How Mistral is told to think, how long it may take, and what is kept of an error.
pub proof fn law_mistral_options(
    model: Model,
    level: Seq<char>,
    mapped_to: Seq<char>,
    o: &MistralOptions,
    text: Seq<char>,
    max_chars: nat,
)
    ensures
        mapped_level(model, level) == Some(mapped_to) ==> effort_for(model, level) == mapped_to,
        mapped_level(model, level) is None ==> effort_for(model, level) == "high"@,
        model.id@ == "mistral-small-latest"@ || model.id@ == "mistral-small-2603"@ || model.id@
            == "mistral-medium-3.5"@ <==> takes_effort(model),
        timeout_of(None) == 60_000,
        o.stream.request.timeout_ms matches Some(ms) ==> timeout_of(Some(o)) == ms,
        o.stream.request.timeout_ms is None ==> timeout_of(Some(o)) == 60_000,
        text.len() <= max_chars ==> truncated(text, max_chars) == text,
        text.len() > max_chars ==> text.take(max_chars as int).is_prefix_of(
            truncated(text, max_chars),
        ) && truncated(text, max_chars) == text.take(max_chars as int) + "... [truncated "@
            + decimal((text.len() - max_chars) as nat) + " chars]"@,
{
    if text.len() > max_chars {
        let kept = text.take(max_chars as int);
        assert(truncated(text, max_chars).take(max_chars as int) =~= kept);
    }
}

/// What an effort is sent to Codex as: what the model maps it to, else as it is; no
/// effort stands for the level that is off.
pub proof fn law_codex_efforts(model: Model, effort: Seq<char>, mapped_to: Seq<char>)
    ensures
        effort != "none"@ && mapped_level(model, effort) == Some(mapped_to) ==> codex_effort(
            model,
            effort,
        ) == mapped_to,
        effort != "none"@ && mapped_level(model, effort) is None ==> codex_effort(model, effort)
            == effort,
        mapped_level(model, "off"@) == Some(mapped_to) ==> codex_effort(model, "none"@)
            == mapped_to,
        mapped_level(model, "off"@) is None ==> codex_effort(model, "none"@) == "none"@,
{
}

} // verus!
