//! When a Codex request is tried again, what its errors say, and how its events and
//! its token are read.
use vstd::prelude::*;
use crate::api::openai_codex_responses::auth::{account_of, base64_bytes};
use crate::api::openai_codex_responses::events::{
    codex_values, completed_event, final_event, known_status, limit_message, mapped, minutes_of,
    parsed_error_text, tier_halves, tier_of, tier_priced, turn_ended, with_event,
};
use crate::api::openai_codex_responses::request::OpenAICodexResponsesOptions;
use crate::api::openai_codex_responses::retry::{
    backoff, decision, delay_limit, is_retryable, requested_delay, retries_allowed, retry_after,
    Decision,
};
use crate::api::headers::Pairs;
use crate::api::openai_stream::{parsed_event, WireEvent};
use crate::json::{json_text, object_at, str_at, Entries, Json};
use crate::number::{whole, Number};
use crate::pattern::{says_busy, says_terminal_limit};
use crate::text::{split_on, trimmed, utf8_lossy};
use crate::types::{Event, Reply, StopReason, Usage};

verus! {

/// Which answers are worth another try: a server that fails, a limit that is not
/// reached for good, and a text that says that a service is busy.
pub proof fn law_what_is_tried_again(text: Seq<char>, status: u16)
    ensures
        is_retryable(Some(500), text) && is_retryable(Some(502), text) && is_retryable(
            Some(503),
            text,
        ) && is_retryable(Some(504), text),
        is_retryable(Some(429), text) <==> !says_terminal_limit(text),
        status != 429 && status != 500 && status != 502 && status != 503 && status != 504 ==> (
        is_retryable(Some(status), text) <==> says_busy(text)),
        is_retryable(None, text) <==> says_busy(text),
{
}

/// A request is tried again only while tries are left and the answer is worth it.
/// It waits for as long as the server asks, where that is not too long, and else
/// twice as long as before, beginning with a second.
pub proof fn law_tries(
    attempt: u64,
    status: Option<u16>,
    message: Seq<char>,
    requested: Option<Number>,
    options: Option<&OpenAICodexResponsesOptions>,
    parse: spec_fn(Seq<char>) -> Option<Json>,
    now: Number,
)
    ensures
        ({
            let d = decision(attempt, status, message, requested, options, parse, now);
            &&& attempt >= retries_allowed(options) ==> d is Fail
            &&& !is_retryable(status, message) ==> d is Fail
            &&& attempt < retries_allowed(options) && is_retryable(status, message) && requested
                is None ==> d == (Decision::Retry { delay_ms: backoff(attempt as nat) as u64 })
            &&& attempt < retries_allowed(options) && is_retryable(status, message) ==> (requested
                matches Some(delay) ==> {
                let limit = delay_limit(options);
                &&& limit.nanos > 0 && delay.nanos > limit.nanos ==> d is Fail
                &&& limit.nanos <= 0 || delay.nanos <= limit.nanos ==> d == (Decision::Retry {
                    delay_ms: crate::number::index_value(delay),
                })
            })
        }),
        options is None ==> retries_allowed(options) == 0,
        options matches Some(o) ==> (o.stream.request.max_retries matches Some(n)
            ==> retries_allowed(options) == n),
        options is None ==> delay_limit(options) == whole(60_000),
        options matches Some(o) ==> (o.stream.request.max_retry_delay_ms matches Some(n)
            ==> delay_limit(options) == whole(n as int)),
        backoff(0) == 1000,
        backoff(attempt as nat + 1) == 2 * backoff(attempt as nat),
{
}

/// The wait that a server asks for is read from milliseconds first, else from
/// seconds or a date, and is never negative.
pub proof fn law_wait_is_read(
    headers: Pairs,
    number: spec_fn(Seq<char>) -> Option<Number>,
    date: spec_fn(Seq<char>) -> Option<Number>,
    now: Number,
    value: Seq<char>,
)
    ensures
        number(value) matches Some(seconds) ==> (0 <= seconds.nanos
            < 1_000_000_000_000_000_000_000_000 ==> (retry_after(
            Some(value),
            number,
            date,
            now,
        ) matches Some(wait) && wait.nanos == seconds.nanos * 1000)),
        number(value) matches Some(seconds) ==> (seconds.nanos < 0 ==> retry_after(
            Some(value),
            number,
            date,
            now,
        ) == Some(whole(0))),
        number(value) is None && date(value) is None ==> retry_after(Some(value), number, date, now)
            is None,
        number(value) is None ==> (date(value) matches Some(at) ==> (0 <= now.nanos <= at.nanos ==> (
        retry_after(Some(value), number, date, now) matches Some(wait) && wait.nanos == at.nanos
            - now.nanos))),
        retry_after(None, number, date, now) is None,
        crate::api::openai_codex_responses::retry::header_value(headers, "retry-after-ms"@)
            matches Some(told) ==> (number(told) matches Some(millis) ==> (millis.nanos >= 0
            ==> requested_delay(headers, number, date, now) == Some(millis))),
        crate::api::openai_codex_responses::retry::header_value(headers, "retry-after-ms"@) is None
            ==> requested_delay(headers, number, date, now) == retry_after(
            crate::api::openai_codex_responses::retry::header_value(headers, "retry-after"@),
            number,
            date,
            now,
        ),
{
}

/// What an error says: where a limit is reached, that it is; else the message that
/// it has; else its text as it is.
pub proof fn law_errors_are_told(
    error: Entries,
    e: Entries,
    body: Seq<char>,
    status: Option<u16>,
    now: Number,
)
    requires
        object_at(e, "error"@) == Some(error),
    ensures
        ({
            let told = parsed_error_text(Some(Json::Object(e)), body, status, now);
            &&& status == Some(429u16)
                ==> "You have hit your ChatGPT usage limit"@.is_prefix_of(told)
            &&& status != Some(429u16) && str_at(error, "code"@) is None && str_at(
                error,
                "type"@,
            ) is None && str_at(error, "message"@) is Some && str_at(error, "message"@)->0.len() > 0
                && !crate::pattern::is_usage_code(Seq::empty()) ==> told == str_at(
                error,
                "message"@,
            )->0
            &&& body.len() > 0 ==> parsed_error_text(None, body, status, now) == body
            &&& body.len() == 0 ==> parsed_error_text(None, body, status, now) == "Request failed"@
        }),
{
    let first = "You have hit your ChatGPT usage limit"@;
    let told = limit_message(error, now);
    assert(told =~= first + (crate::api::openai_codex_responses::events::plan_note(error) + "."@
        + crate::api::openai_codex_responses::events::reset_note(error, now)));
    assert(told.take(first.len() as int) =~= first);
    assert(first.is_prefix_of(told));
}

/// Minutes are rounded to the nearest.
pub proof fn law_minutes_are_rounded(n: nat)
    requires
        n < 1_000_000_000,
    ensures
        minutes_of(whole(n as int * 60_000)) == n,
        minutes_of(whole(n as int * 60_000 + 29_999)) == n,
        minutes_of(whole(n as int * 60_000 + 30_000)) == n + 1,
        minutes_of(whole(-1)) == 0,
{
}

/// A tier is priced: flex at half, priority at twice or, for one model, at five
/// halves, any other as it is; the tokens stay.
pub proof fn law_tiers_are_priced(usage: Usage, id: Seq<char>, tier: Option<Seq<char>>)
    ensures
        tier_halves(id, Some("flex"@)) == 1,
        tier_halves(id, Some("priority"@)) == if id == "gpt-5.5"@ {
            5nat
        } else {
            4nat
        },
        tier_halves(id, None) == 2,
        tier_halves(id, Some("default"@)) == 2,
        tier_priced(usage, id, None) == usage,
        ({
            let priced = tier_priced(usage, id, tier);
            &&& priced.input == usage.input && priced.output == usage.output && priced.cache_read
                == usage.cache_read && priced.cache_write == usage.cache_write
                && priced.total_tokens == usage.total_tokens
            &&& tier == Some("flex"@) ==> priced.cost.input.parts == (usage.cost.input.parts as int
                / 2) && priced.cost.output.parts == (usage.cost.output.parts as int / 2)
        }),
        tier_of(Some("default"@), Some("flex"@)) == Some("flex"@),
        tier_of(Some("default"@), Some("priority"@)) == Some("priority"@),
        tier_of(Some("flex"@), tier) == Some("flex"@),
        tier_of(None, tier) == tier,
{
    reveal_strlit("flex");
    reveal_strlit("priority");
    reveal_strlit("default");
    assert("flex"@.len() == 4 && "priority"@.len() == 8 && "default"@.len() == 7);
    assert(usage.cost.input.parts * 1 == usage.cost.input.parts) by (nonlinear_arith);
    assert(usage.cost.output.parts * 1 == usage.cost.output.parts) by (nonlinear_arith);
}

proof fn lemma_kinds()
    ensures
        "error"@ != "response.failed"@,
        "error"@ != "response.done"@ && "error"@ != "response.completed"@ && "error"@
            != "response.incomplete"@,
        "response.failed"@ != "response.done"@ && "response.failed"@ != "response.completed"@
            && "response.failed"@ != "response.incomplete"@,
{
    reveal_strlit("error");
    reveal_strlit("response.failed");
    reveal_strlit("response.done");
    reveal_strlit("response.completed");
    reveal_strlit("response.incomplete");
    assert("error"@.len() == 5 && "response.failed"@.len() == 15 && "response.done"@.len() == 13);
    assert("response.completed"@.len() == 18 && "response.incomplete"@.len() == 19);
}

/// The events of a Codex stream are taken in order: an error ends them with what it
/// says, the end of the response ends them well, and any other is handed on as it
/// is.
pub proof fn law_events_are_taken_in_order(
    acc: Seq<WireEvent>,
    e: Entries,
    rest: Seq<Json>,
    parse: spec_fn(Seq<char>) -> Option<Json>,
)
    ensures
        ({
            let list = seq![Json::Object(e)] + rest;
            let kind = str_at(e, "type"@);
            let out = mapped(acc, list, parse);
            &&& kind is None ==> out == mapped(acc, rest, parse)
            &&& kind == Some("error"@) ==> out.0 is Err
            &&& kind == Some("error"@) && str_at(e, "message"@) is Some ==> out.0 == Err::<
                Seq<WireEvent>,
                Seq<char>,
            >("Codex error: "@ + str_at(e, "message"@)->0)
            &&& kind == Some("response.failed"@) && object_at(e, "response"@) is None ==> out.0
                == Err::<Seq<WireEvent>, Seq<char>>("Codex response failed"@)
            &&& kind == Some("response.completed"@) || kind == Some("response.done"@) || kind
                == Some("response.incomplete"@) ==> (out.0 matches Ok(events) && events.len()
                <= acc.len() + 1 && acc.is_prefix_of(events))
            &&& kind == Some("response.output_text.delta"@) && parse(json_text(Json::Object(e)))
                == Some(Json::Object(e)) ==> (parsed_event(Json::Object(e)) matches Some(event)
                ==> out == mapped(acc.push(event), rest, parse))
        }),
{
    lemma_kinds();
    reveal_strlit("response.output_text.delta");
    reveal_strlit("error");
    reveal_strlit("response.failed");
    reveal_strlit("response.done");
    reveal_strlit("response.completed");
    reveal_strlit("response.incomplete");
    assert("response.output_text.delta"@.len() == 26);
    assert("error"@.len() == 5 && "response.failed"@.len() == 15 && "response.done"@.len() == 13);
    assert("response.completed"@.len() == 18 && "response.incomplete"@.len() == 19);
    let list = seq![Json::Object(e)] + rest;
    assert(list[0] == Json::Object(e));
    assert(list.drop_first() =~= rest);
    let done = with_event(acc, parse(json_text(completed_event(e))));
    assert(acc.is_prefix_of(done));
}

/// The statuses that are known are kept, and no others.
pub proof fn law_known_statuses(status: Seq<char>)
    ensures
        known_status(Some("completed"@)) == Some("completed"@),
        known_status(Some("incomplete"@)) == Some("incomplete"@),
        known_status(Some("failed"@)) == Some("failed"@),
        known_status(Some("cancelled"@)) == Some("cancelled"@),
        known_status(Some("queued"@)) == Some("queued"@),
        known_status(Some("in_progress"@)) == Some("in_progress"@),
        known_status(None) is None,
        known_status(Some(status)) is Some ==> known_status(Some(status)) == Some(status),
        known_status(Some("done"@)) is None,
{
    reveal_strlit("done");
    reveal_strlit("completed");
    reveal_strlit("incomplete");
    reveal_strlit("failed");
    reveal_strlit("cancelled");
    reveal_strlit("queued");
    reveal_strlit("in_progress");
    assert("done"@.len() == 4);
    assert("completed"@.len() == 9 && "incomplete"@.len() == 10 && "failed"@.len() == 6);
    assert("cancelled"@.len() == 9 && "queued"@.len() == 6 && "in_progress"@.len() == 11);
}

/// The account of a token is read from its second part; a token without three parts
/// or without an account has none.
pub proof fn law_account_is_read(
    a: Seq<char>,
    b: Seq<char>,
    c: Seq<char>,
    bytes: Seq<u8>,
    e: Entries,
    auth: Entries,
    id: Seq<char>,
    parse: spec_fn(Seq<char>) -> Option<Json>,
)
    requires
        split_on(a + seq!['.'] + b + seq!['.'] + c, '.') == seq![a, b, c],
        base64_bytes(b) == Some(bytes),
        parse(utf8_lossy(bytes)) == Some(Json::Object(e)),
        object_at(e, "https://api.openai.com/auth"@) == Some(auth),
        str_at(auth, "chatgpt_account_id"@) == Some(id),
    ensures
        id.len() > 0 ==> account_of(a + seq!['.'] + b + seq!['.'] + c, parse) == Ok::<
            Seq<char>,
            Seq<char>,
        >(id),
        id.len() == 0 ==> account_of(a + seq!['.'] + b + seq!['.'] + c, parse) is Err,
{
    let token = a + seq!['.'] + b + seq!['.'] + c;
    assert(split_on(token, '.')[1] == b);
    assert(split_on(token, '.').len() == 3);
}

/// How a Codex stream ends: with what was asked where it ended well, as aborted or
/// as an error where it did not; nothing of the reply is lost.
pub proof fn law_codex_ends(m: Reply, error: Seq<char>, end_turn: bool)
    ensures
        final_event(m, None, false) matches Event::Done { message, .. } && message == m,
        final_event(m, Some(error), true) matches Event::Error { reason, error: told } && reason
            == "aborted"@ && told.stop_reason == StopReason::Aborted && told.error_message == Some(
            error,
        ) && told.content == m.content && told.usage == m.usage,
        final_event(m, Some(error), false) matches Event::Error { reason, error: told } && reason
            == "error"@ && told.stop_reason == StopReason::Error && told.error_message == Some(
            error,
        ) && told.content == m.content && told.usage == m.usage,
        turn_ended(m, Some(end_turn)).end_turn == Some(end_turn),
        turn_ended(m, None) == m,
{
}

/// The data of a Codex stream is read piece by piece; blank pieces and the mark of
/// the end say nothing, and a piece that cannot be read ends it.
pub proof fn law_data_is_read(
    list: Seq<Seq<char>>,
    data: Seq<char>,
    check: spec_fn(Seq<char>) -> Result<Json, Seq<char>>,
)
    ensures
        codex_values(list, check) matches Ok(values) ==> {
            let after = codex_values(list.push(data), check);
            &&& trimmed(data).len() == 0 || trimmed(data) == "[DONE]"@ ==> after == Ok::<
                Seq<Json>,
                Seq<char>,
            >(values)
            &&& trimmed(data).len() > 0 && trimmed(data) != "[DONE]"@ ==> {
                &&& check(trimmed(data)) matches Ok(value) ==> after == Ok::<Seq<Json>, Seq<char>>(
                    values.push(value),
                )
                &&& check(trimmed(data)) matches Err(e) ==> after == Err::<Seq<Json>, Seq<char>>(
                    "Invalid Codex SSE JSON: "@ + e,
                )
            }
        },
        codex_values(list, check) is Err ==> codex_values(list.push(data), check) == codex_values(
            list,
            check,
        ),
{
    assert(list.push(data).drop_last() =~= list);
}

} // verus!
