//! What a server says: errors, and the events of a stream.
use vstd::prelude::*;
use vstd::string::*;
use crate::api::finish::{check_stopped, outcome, stop_error};
use crate::api::openai_responses::text_or;
use crate::api::openai_stream::{
    at_start, event_is_complete, is_complete, option_properties, parse_stream_event,
    parsed_payload, process_responses_stream, run, stream_error, wire_events,
    OpenAIResponsesStreamOptions, ResponseStreamEvent, WireEvent,
};
use crate::json::{
    as_object, bool_at, check_with, checked_parser_of, clone_entries, entries, get, get_bool,
    get_number, get_object, get_str, is_checked_parser, is_parser, is_reader, items, json_stringify,
    json_text, new_entries, new_items, number_at, object, object_at, parse_with, parser_of,
    push_item, put, reader_of, set_entry, str_at, string, with_entry, Entries, Json, Value,
};
use crate::number::{difference, in_halves, thousandfold, total, Number, ONE};
use crate::pattern::{is_usage_code, matches_pattern};
use crate::text::{
    cat2, cat3, cat4, decimal, decimal_text, lowercase, opt_text, own_opt, str_eq, texts,
    to_lowercase, trim, trimmed,
};
use crate::types::{
    emit, events, stop_reason_name, AssistantMessage, AssistantMessageEvent, Event, Reply,
    StopReason, Usage, UsageCost,
};

verus! {

// ---------------------------------------------------------------------------
// Error responses
// ---------------------------------------------------------------------------

/// The first text that there is.
pub open spec fn either(a: Option<Seq<char>>, b: Option<Seq<char>>) -> Option<Seq<char>> {
    match a {
        Some(_) => a,
        None => b,
    }
}

fn pick(a: Option<String>, b: Option<String>) -> (r: Option<String>)
    ensures
        opt_text(r) == either(opt_text(a), opt_text(b)),
{
    match a {
        Some(a) => Some(a),
        None => b,
    }
}

/// The minutes in a span of milliseconds, rounded, zero at least.
pub open spec fn minutes_of(span: Number) -> nat {
    let minute = 60_000 * ONE;
    if span.nanos <= 0 {
        0
    } else {
        let n = (span.nanos + minute / 2) / minute;
        if n > u64::MAX {
            u64::MAX as nat
        } else {
            n as nat
        }
    }
}

fn count_minutes(span: Number) -> (r: u64)
    ensures
        r == minutes_of(span),
{
    let minute: u128 = 60_000 * ONE as u128;
    if span.nanos <= 0 {
        0
    } else {
        let n: u128 = (span.nanos as u128 + minute / 2) / minute;
        if n > u64::MAX as u128 {
            u64::MAX
        } else {
            n as u64
        }
    }
}

/// The plan of an account, as it stands in a message.
pub open spec fn plan_note(error: Entries) -> Seq<char> {
    match str_at(error, "plan_type"@) {
        Some(plan) => " ("@ + lowercase(plan) + " plan)"@,
        None => Seq::empty(),
    }
}

/// When a limit is lifted, as it stands in a message.
pub open spec fn reset_note(error: Entries, now: Number) -> Seq<char> {
    match number_at(error, "resets_at"@) {
        Some(at) => " Try again in ~"@ + decimal(
            minutes_of(difference(thousandfold(at), now)),
        ) + " min."@,
        None => Seq::empty(),
    }
}

/// What is said of a usage limit.
pub open spec fn limit_message(error: Entries, now: Number) -> Seq<char> {
    "You have hit your ChatGPT usage limit"@ + plan_note(error) + "."@ + reset_note(error, now)
}

/// The code of an error: its `code`, else its `type`.
pub open spec fn error_code(error: Entries) -> Seq<char> {
    text_or(either(str_at(error, "code"@), str_at(error, "type"@)), Seq::empty())
}

/// The error in the body of a response.
pub open spec fn body_error(body: Option<Json>) -> Option<Entries> {
    match body {
        Some(body) => match as_object(body) {
            Some(e) => object_at(e, "error"@),
            None => None,
        },
        None => None,
    }
}

/// What is said of the error in a parsed body.
pub open spec fn parsed_error_text(
    parsed: Option<Json>,
    body: Seq<char>,
    status: Option<u16>,
    now: Number,
) -> Seq<char> {
    let plain = if body.len() > 0 {
        body
    } else {
        "Request failed"@
    };
    match body_error(parsed) {
        Some(error) => if status == Some(429u16) || is_usage_code(error_code(error)) {
            limit_message(error, now)
        } else {
            match str_at(error, "message"@) {
                Some(message) => if message.len() > 0 {
                    message
                } else {
                    plain
                },
                None => plain,
            }
        },
        None => plain,
    }
}

/// What is said of an error response: that a usage limit is hit, else the
/// message of the error, else the body.
pub open spec fn error_text(
    body: Seq<char>,
    status: Option<u16>,
    parse: spec_fn(Seq<char>) -> Option<Json>,
    now: Number,
) -> Seq<char> {
    parsed_error_text(parse(body), body, status, now)
}

fn make_limit_message(error: &Vec<(String, Value)>, now: Number) -> (r: String)
    ensures
        r@ == limit_message(entries(error@), now),
{
    let plan = match get_str(error, "plan_type") {
        Some(plan) => cat3(" (", to_lowercase(plan.as_str()).as_str(), " plan)"),
        None => String::new(),
    };
    let when = match get_number(error, "resets_at") {
        Some(at) => {
            let minutes: u64 = count_minutes(at.thousandfold().minus(now));
            cat3(" Try again in ~", decimal_text(minutes as u128).as_str(), " min.")
        },
        None => String::new(),
    };
    cat4("You have hit your ChatGPT usage limit", plan.as_str(), ".", when.as_str())
}

/// What is said of the error in a parsed body. `now` is the time in
/// milliseconds.
pub fn describe_error(parsed: &Option<Value>, body: &str, status: Option<u16>, now: Number) -> (r:
    String)
    ensures
        r@ == parsed_error_text(crate::json::opt_json(*parsed), body@, status, now),
{
    let plain = if body.is_empty() {
        "Request failed".to_owned()
    } else {
        body.to_owned()
    };
    let error = match parsed {
        Some(value) => match value.as_object() {
            Some(e) => match get_object(e, "error") {
                Some(error) => error,
                None => {
                    return plain;
                },
            },
            None => {
                return plain;
            },
        },
        None => {
            return plain;
        },
    };
    let code = match pick(get_str(error, "code"), get_str(error, "type")) {
        Some(code) => code,
        None => String::new(),
    };
    let over = match status {
        Some(429) => true,
        _ => matches_pattern(
            "usage_limit_reached|usage_not_included|rate_limit_exceeded",
            code.as_str(),
        ),
    };
    if over {
        return make_limit_message(error, now);
    }
    match get_str(error, "message") {
        Some(message) => if message.as_str().is_empty() {
            plain
        } else {
            message
        },
        None => plain,
    }
}

/// What is said of an error response. `now` is the time in milliseconds.
pub fn parse_error_response<P: Fn(&str) -> Option<Value>>(
    body: &str,
    status: Option<u16>,
    parse: &P,
    now: Number,
) -> (r: String)
    requires
        is_parser(*parse),
    ensures
        r@ == error_text(body@, status, parser_of(*parse), now),
{
    let parsed = parse_with(parse, body);
    describe_error(&parsed, body, status, now)
}

// ---------------------------------------------------------------------------
// Service tiers
// ---------------------------------------------------------------------------

/// What the cost of a reply is multiplied by for a service tier, in halves.
pub open spec fn tier_halves(model_id: Seq<char>, tier: Option<Seq<char>>) -> nat {
    if tier == Some("flex"@) {
        1
    } else if tier == Some("priority"@) {
        if model_id == "gpt-5.5"@ {
            5
        } else {
            4
        }
    } else {
        2
    }
}

/// What the cost of a reply is multiplied by for a service tier, in halves.
pub fn get_service_tier_cost_multiplier(model_id: &str, service_tier: Option<&str>) -> (r: u64)
    ensures
        r == tier_halves(model_id@, crate::text::opt_str(service_tier)),
{
    match service_tier {
        Some(tier) => if str_eq(tier, "flex") {
            1
        } else if str_eq(tier, "priority") {
            if str_eq(model_id, "gpt-5.5") {
                5
            } else {
                4
            }
        } else {
            2
        },
        None => 2,
    }
}

/// What a reply costs at a service tier.
pub open spec fn tier_priced(usage: Usage, model_id: Seq<char>, tier: Option<Seq<char>>) -> Usage {
    let halves = tier_halves(model_id, tier);
    if halves == 2 {
        usage
    } else {
        let input = in_halves(usage.cost.input, halves);
        let output = in_halves(usage.cost.output, halves);
        let cache_read = in_halves(usage.cost.cache_read, halves);
        let cache_write = in_halves(usage.cost.cache_write, halves);
        Usage {
            cost: UsageCost {
                input,
                output,
                cache_read,
                cache_write,
                total: total(total(total(input, output), cache_read), cache_write),
            },
            ..usage
        }
    }
}

pub fn apply_service_tier_pricing(usage: &mut Usage, service_tier: Option<&str>, model_id: &str)
    ensures
        *final(usage) == tier_priced(*old(usage), model_id@, crate::text::opt_str(service_tier)),
{
    let halves: u64 = get_service_tier_cost_multiplier(model_id, service_tier);
    if halves == 2 {
        return;
    }
    let input = usage.cost.input.in_halves(halves);
    let output = usage.cost.output.in_halves(halves);
    let cache_read = usage.cost.cache_read.in_halves(halves);
    let cache_write = usage.cost.cache_write.in_halves(halves);
    usage.cost = UsageCost {
        input,
        output,
        cache_read,
        cache_write,
        total: input.plus(output).plus(cache_read).plus(cache_write),
    };
}

/// The service tier of a reply: the one that the response names, unless it only
/// names the default where a special one was asked for; else the one asked for.
pub open spec fn tier_of(response: Option<Seq<char>>, request: Option<Seq<char>>) -> Option<
    Seq<char>,
> {
    if response == Some("default"@) && (request == Some("flex"@) || request == Some("priority"@)) {
        request
    } else {
        either(response, request)
    }
}

pub fn resolve_codex_service_tier(
    response_service_tier: Option<&str>,
    request_service_tier: Option<&str>,
) -> (r: Option<String>)
    ensures
        opt_text(r) == tier_of(
            crate::text::opt_str(response_service_tier),
            crate::text::opt_str(request_service_tier),
        ),
{
    let special = match request_service_tier {
        Some(tier) => str_eq(tier, "flex") || str_eq(tier, "priority"),
        None => false,
    };
    match response_service_tier {
        Some(tier) => if str_eq(tier, "default") && special {
            own_opt(request_service_tier)
        } else {
            Some(tier.to_owned())
        },
        None => own_opt(request_service_tier),
    }
}

// ---------------------------------------------------------------------------
// Events
// ---------------------------------------------------------------------------

/// Whether a status is one that a response can have.
pub open spec fn is_status(status: Seq<char>) -> bool {
    status == "completed"@ || status == "incomplete"@ || status == "failed"@ || status
        == "cancelled"@ || status == "queued"@ || status == "in_progress"@
}

/// A status, where it is one that a response can have.
pub open spec fn known_status(status: Option<Seq<char>>) -> Option<Seq<char>> {
    match status {
        Some(status) => if is_status(status) {
            Some(status)
        } else {
            None
        },
        None => None,
    }
}

pub fn normalize_codex_status(status: Option<&str>) -> (r: Option<String>)
    ensures
        opt_text(r) == known_status(crate::text::opt_str(status)),
{
    match status {
        Some(status) => if str_eq(status, "completed") || str_eq(status, "incomplete") || str_eq(
            status,
            "failed",
        ) || str_eq(status, "cancelled") || str_eq(status, "queued") || str_eq(
            status,
            "in_progress",
        ) {
            Some(status.to_owned())
        } else {
            None
        },
        None => None,
    }
}

/// A text of an event, or of the error in it.
pub open spec fn event_text(e: Entries, key: Seq<char>) -> Option<Seq<char>> {
    either(
        str_at(e, key),
        match object_at(e, "error"@) {
            Some(nested) => str_at(nested, key),
            None => None,
        },
    )
}

fn find_event_text(e: &Vec<(String, Value)>, key: &str) -> (r: Option<String>)
    ensures
        opt_text(r) == event_text(entries(e@), key@),
{
    let nested = match get_object(e, "error") {
        Some(nested) => get_str(nested, key),
        None => None,
    };
    pick(get_str(e, key), nested)
}

/// The code and the message of an error event.
pub fn extract_codex_event_error(event: &Value) -> (r: (Option<String>, Option<String>))
    ensures
        match as_object(event@) {
            Some(e) => opt_text(r.0) == event_text(e, "code"@) && opt_text(r.1) == event_text(
                e,
                "message"@,
            ),
            None => r.0 is None && r.1 is None,
        },
{
    match event.as_object() {
        Some(e) => (find_event_text(e, "code"), find_event_text(e, "message")),
        None => (None, None),
    }
}

/// What is said of an error event: its message, else its code, else all of it.
pub open spec fn codex_error(e: Entries) -> Seq<char> {
    "Codex error: "@ + text_or(
        either(event_text(e, "message"@), event_text(e, "code"@)),
        json_text(Json::Object(e)),
    )
}

/// What is said of a response that failed.
pub open spec fn failed_message(e: Entries) -> Seq<char> {
    let message = match object_at(e, "response"@) {
        Some(response) => match object_at(response, "error"@) {
            Some(error) => str_at(error, "message"@),
            None => None,
        },
        None => None,
    };
    text_or(message, "Codex response failed"@)
}

/// The entries with every entry of a key left out.
pub open spec fn without_all(e: Entries, key: Seq<char>) -> Entries
    decreases e.len(),
{
    if e.len() == 0 {
        Seq::empty()
    } else {
        let before = without_all(e.drop_last(), key);
        if e.last().0 == key {
            before
        } else {
            before.push(e.last())
        }
    }
}

/// A response whose status is one that a response can have, or left out.
pub open spec fn plain_response(response: Entries) -> Entries {
    if known_status(str_at(response, "status"@)) is Some {
        response
    } else {
        without_all(response, "status"@)
    }
}

/// The event that completes a response, in the form that is common to all
/// interfaces.
pub open spec fn completed_event(e: Entries) -> Json {
    let named = with_entry(e, "type"@, Json::Str("response.completed"@));
    Json::Object(
        match object_at(e, "response"@) {
            Some(response) => with_entry(
                named,
                "response"@,
                Json::Object(plain_response(response)),
            ),
            None => named,
        },
    )
}

/// Whether a type is that of an event that ends a response.
pub open spec fn is_terminal(kind: Seq<char>) -> bool {
    kind == "response.done"@ || kind == "response.completed"@ || kind == "response.incomplete"@
}

/// Whether the turn is over, where the last event says so.
pub open spec fn end_turn_of(e: Entries) -> Option<bool> {
    match object_at(e, "response"@) {
        Some(response) => bool_at(response, "end_turn"@),
        None => None,
    }
}

/// The events with one more, where a payload is a known event.
pub open spec fn with_event(acc: Seq<WireEvent>, payload: Option<Json>) -> Seq<WireEvent> {
    match parsed_payload(payload) {
        Some(event) => acc.push(event),
        None => acc,
    }
}

/// What the events of a stream come to: the known ones up to the one that ends
/// the response, or an error; and whether the turn is over, where it is said.
pub open spec fn mapped(
    acc: Seq<WireEvent>,
    list: Seq<Json>,
    parse: spec_fn(Seq<char>) -> Option<Json>,
) -> (Result<Seq<WireEvent>, Seq<char>>, Option<bool>)
    decreases list.len(),
{
    if list.len() == 0 {
        (Ok(acc), None)
    } else {
        match as_object(list[0]) {
            None => mapped(acc, list.drop_first(), parse),
            Some(e) => match str_at(e, "type"@) {
                None => mapped(acc, list.drop_first(), parse),
                Some(kind) => if kind == "error"@ {
                    (Err(codex_error(e)), None)
                } else if kind == "response.failed"@ {
                    (Err(failed_message(e)), None)
                } else if is_terminal(kind) {
                    (
                        Ok(with_event(acc, parse(json_text(completed_event(e))))),
                        end_turn_of(e),
                    )
                } else {
                    mapped(with_event(acc, parse(json_text(list[0]))), list.drop_first(), parse)
                },
            },
        }
    }
}

/// Whether a payload carries what its type calls for, where it is an event.
pub open spec fn payload_is_complete(payload: Option<Json>) -> bool {
    match payload {
        Some(j) => is_complete(j),
        None => true,
    }
}

/// Whether the events of a stream carry what their types call for, up to the
/// one that ends the response.
pub open spec fn all_complete(
    list: Seq<Json>,
    parse: spec_fn(Seq<char>) -> Option<Json>,
) -> bool
    decreases list.len(),
{
    if list.len() == 0 {
        true
    } else {
        match as_object(list[0]) {
            None => all_complete(list.drop_first(), parse),
            Some(e) => match str_at(e, "type"@) {
                None => all_complete(list.drop_first(), parse),
                Some(kind) => if kind == "error"@ || kind == "response.failed"@ {
                    true
                } else if is_terminal(kind) {
                    payload_is_complete(parse(json_text(completed_event(e))))
                } else {
                    payload_is_complete(parse(json_text(list[0]))) && all_complete(
                        list.drop_first(),
                        parse,
                    )
                },
            },
        }
    }
}

fn remove_all(e: &Vec<(String, Value)>, key: &str) -> (r: Vec<(String, Value)>)
    ensures
        entries(r@) == without_all(entries(e@), key@),
{
    let mut r = new_entries();
    let ghost list = entries(e@);
    let mut i: usize = 0;
    while i < e.len()
        invariant
            i <= e@.len(),
            list == entries(e@),
            entries(r@) == without_all(list.take(i as int), key@),
        decreases e.len() - i,
    {
        proof {
            assert(list.take(i + 1).drop_last() =~= list.take(i as int));
            assert(list.take(i + 1).last() == (e@[i as int].0@, e@[i as int].1@));
        }
        if !str_eq(e[i].0.as_str(), key) {
            put(&mut r, e[i].0.as_str(), e[i].1.clone());
        }
        i += 1;
    }
    proof {
        assert(list.take(e@.len() as int) =~= list);
    }
    r
}

fn make_completed_event(e: &Vec<(String, Value)>) -> (r: Value)
    ensures
        r@ == completed_event(entries(e@)),
{
    let mut named = clone_entries(e);
    set_entry(&mut named, "type", string("response.completed"));
    if let Some(response) = get_object(e, "response") {
        let status = get_str(response, "status");
        let known = match &status {
            Some(status) => normalize_codex_status(Some(status.as_str())).is_some(),
            None => false,
        };
        let plain = if known {
            clone_entries(response)
        } else {
            remove_all(response, "status")
        };
        set_entry(&mut named, "response", object(plain));
    }
    object(named)
}

fn make_failed_message(e: &Vec<(String, Value)>) -> (r: String)
    ensures
        r@ == failed_message(entries(e@)),
{
    let message = match get_object(e, "response") {
        Some(response) => match get_object(response, "error") {
            Some(error) => get_str(error, "message"),
            None => None,
        },
        None => None,
    };
    match message {
        Some(message) => message,
        None => "Codex response failed".to_owned(),
    }
}

fn make_codex_error(event: &Value, Ghost(e): Ghost<Entries>) -> (r: String)
    requires
        event@ == Json::Object(e),
    ensures
        r@ == codex_error(e),
{
    let (code, message) = extract_codex_event_error(event);
    let text = match pick(message, code) {
        Some(text) => text,
        None => json_stringify(event),
    };
    cat2("Codex error: ", text.as_str())
}

fn kind_is_terminal(kind: &str) -> (r: bool)
    ensures
        r == is_terminal(kind@),
{
    str_eq(kind, "response.done") || str_eq(kind, "response.completed") || str_eq(
        kind,
        "response.incomplete",
    )
}

fn payload_complete<P: Fn(&str) -> Option<Value>>(event: &Value, parse: &P) -> (r: bool)
    requires
        is_parser(*parse),
    ensures
        r == payload_is_complete(parser_of(*parse)(json_text(event@))),
{
    match parse_with(parse, json_stringify(event).as_str()) {
        Some(value) => event_is_complete(&value),
        None => true,
    }
}

/// Whether the events of a stream carry what their types call for.
pub fn codex_events_are_complete<P: Fn(&str) -> Option<Value>>(
    list: &Vec<Value>,
    parse: &P,
) -> (r: bool)
    requires
        is_parser(*parse),
    ensures
        r == all_complete(items(list@), parser_of(*parse)),
{
    let ghost all = items(list@);
    let mut i: usize = 0;
    proof {
        assert(all.skip(0) =~= all);
    }
    while i < list.len()
        invariant
            i <= list@.len(),
            all == items(list@),
            is_parser(*parse),
            all_complete(all, parser_of(*parse)) == all_complete(
                all.skip(i as int),
                parser_of(*parse),
            ),
        decreases list.len() - i,
    {
        proof {
            assert(all.skip(i as int).drop_first() =~= all.skip(i + 1));
            assert(all.skip(i as int)[0] == list@[i as int]@);
        }
        if let Some(e) = list[i].as_object() {
            if let Some(kind) = get_str(e, "type") {
                let kind = kind.as_str();
                if str_eq(kind, "error") || str_eq(kind, "response.failed") {
                    return true;
                }
                if kind_is_terminal(kind) {
                    return payload_complete(&make_completed_event(e), parse);
                }
                if !payload_complete(&list[i], parse) {
                    return false;
                }
            }
        }
        i += 1;
    }
    true
}

/// What mapped events hold.
pub open spec fn res_events(r: Result<Vec<ResponseStreamEvent>, String>) -> Result<
    Seq<WireEvent>,
    Seq<char>,
> {
    match r {
        Ok(list) => Ok(wire_events(list@)),
        Err(e) => Err(e@),
    }
}

/// The reply with what is known of the end of the turn.
pub open spec fn turn_ended(m: Reply, end_turn: Option<bool>) -> Reply {
    match end_turn {
        Some(_) => Reply { end_turn, ..m },
        None => m,
    }
}

fn add_event<P: Fn(&str) -> Option<Value>>(
    list: &mut Vec<ResponseStreamEvent>,
    event: &Value,
    parse: &P,
)
    requires
        is_parser(*parse),
        payload_is_complete(parser_of(*parse)(json_text(event@))),
    ensures
        wire_events(final(list)@) == with_event(
            wire_events(old(list)@),
            parser_of(*parse)(json_text(event@)),
        ),
{
    let text = json_stringify(event);
    if let Some(event) = parse_stream_event(text.as_str(), parse) {
        list.push(event);
        proof {
            assert(wire_events(list@) =~= wire_events(old(list)@).push(event@));
        }
    }
}

/// Maps the events of a stream to those that all interfaces share, and notes in
/// the reply whether the turn is over.
pub fn map_codex_events<P: Fn(&str) -> Option<Value>>(
    list: &Vec<Value>,
    output: &mut AssistantMessage,
    parse: &P,
) -> (r: Result<Vec<ResponseStreamEvent>, String>)
    requires
        is_parser(*parse),
        all_complete(items(list@), parser_of(*parse)),
    ensures
        ({
            let m = mapped(Seq::empty(), items(list@), parser_of(*parse));
            &&& res_events(r) == m.0
            &&& final(output)@ == turn_ended(old(output)@, m.1)
        }),
{
    let ghost all = items(list@);
    let ghost p = parser_of(*parse);
    let mut out: Vec<ResponseStreamEvent> = Vec::new();
    let mut i: usize = 0;
    proof {
        assert(all.skip(0) =~= all);
        assert(wire_events(out@) =~= Seq::<WireEvent>::empty());
    }
    while i < list.len()
        invariant
            i <= list@.len(),
            all == items(list@),
            p == parser_of(*parse),
            is_parser(*parse),
            output@ == old(output)@,
            all_complete(all.skip(i as int), p),
            mapped(Seq::empty(), all, p) == mapped(wire_events(out@), all.skip(i as int), p),
        decreases list.len() - i,
    {
        proof {
            assert(all.skip(i as int).drop_first() =~= all.skip(i + 1));
            assert(all.skip(i as int)[0] == list@[i as int]@);
        }
        if let Some(e) = list[i].as_object() {
            if let Some(kind) = get_str(e, "type") {
                let kind = kind.as_str();
                if str_eq(kind, "error") {
                    return Err(make_codex_error(&list[i], Ghost(entries(e@))));
                }
                if str_eq(kind, "response.failed") {
                    return Err(make_failed_message(e));
                }
                if kind_is_terminal(kind) {
                    let end_turn = match get_object(e, "response") {
                        Some(response) => get_bool(response, "end_turn"),
                        None => None,
                    };
                    if end_turn.is_some() {
                        output.end_turn = end_turn;
                    }
                    add_event(&mut out, &make_completed_event(e), parse);
                    return Ok(out);
                }
                add_event(&mut out, &list[i], parse);
            }
        }
        i += 1;
    }
    Ok(out)
}

/// The values in the data of a stream, or the first that cannot be parsed.
pub open spec fn codex_values(
    list: Seq<Seq<char>>,
    check: spec_fn(Seq<char>) -> Result<Json, Seq<char>>,
) -> Result<Seq<Json>, Seq<char>>
    decreases list.len(),
{
    if list.len() == 0 {
        Ok(Seq::empty())
    } else {
        match codex_values(list.drop_last(), check) {
            Err(e) => Err(e),
            Ok(before) => {
                let data = trimmed(list.last());
                if data.len() == 0 || data == "[DONE]"@ {
                    Ok(before)
                } else {
                    match check(data) {
                        Ok(value) => Ok(before.push(value)),
                        Err(e) => Err("Invalid Codex SSE JSON: "@ + e),
                    }
                }
            },
        }
    }
}

/// What read values hold.
pub open spec fn res_values(r: Result<Vec<Value>, String>) -> Result<Seq<Json>, Seq<char>> {
    match r {
        Ok(list) => Ok(items(list@)),
        Err(e) => Err(e@),
    }
}

proof fn lemma_values_fail(
    list: Seq<Seq<char>>,
    check: spec_fn(Seq<char>) -> Result<Json, Seq<char>>,
    i: int,
)
    requires
        0 <= i <= list.len(),
        codex_values(list.take(i), check) is Err,
    ensures
        codex_values(list, check) == codex_values(list.take(i), check),
    decreases list.len() - i,
{
    if i == list.len() {
        assert(list.take(i) =~= list);
    } else {
        assert(list.take(i + 1).drop_last() =~= list.take(i));
        lemma_values_fail(list, check, i + 1);
    }
}

/// Reads the values in the data of a stream. `check` says why a text cannot be
/// parsed.
pub fn read_codex_events<C: Fn(&str) -> Result<Value, String>>(list: &Vec<String>, check: &C) ->
    (r: Result<Vec<Value>, String>)
    requires
        is_checked_parser(*check),
    ensures
        res_values(r) == codex_values(texts(list@), checked_parser_of(*check)),
{
    let ghost all = texts(list@);
    let ghost c = checked_parser_of(*check);
    let mut out = new_items();
    let mut i: usize = 0;
    while i < list.len()
        invariant
            i <= list@.len(),
            all == texts(list@),
            c == checked_parser_of(*check),
            is_checked_parser(*check),
            codex_values(all.take(i as int), c) == Ok::<Seq<Json>, Seq<char>>(items(out@)),
        decreases list.len() - i,
    {
        proof {
            assert(all.take(i + 1).drop_last() =~= all.take(i as int));
            assert(all.take(i + 1).last() == list@[i as int]@);
        }
        let data = trim(list[i].as_str());
        if !(data.as_str().is_empty() || str_eq(data.as_str(), "[DONE]")) {
            match check_with(check, data.as_str()) {
                Ok(value) => push_item(&mut out, value),
                Err(e) => {
                    proof {
                        lemma_values_fail(all, c, i + 1);
                    }
                    return Err(cat2("Invalid Codex SSE JSON: ", e.as_str()));
                },
            }
        }
        i += 1;
    }
    proof {
        assert(all.take(list@.len() as int) =~= all);
    }
    Ok(out)
}

/// What the data of a stream comes to.
pub open spec fn parsed_stream(
    list: Seq<Seq<char>>,
    check: spec_fn(Seq<char>) -> Result<Json, Seq<char>>,
    parse: spec_fn(Seq<char>) -> Option<Json>,
) -> (Result<Seq<WireEvent>, Seq<char>>, Option<bool>) {
    match codex_values(list, check) {
        Ok(values) => mapped(Seq::empty(), values, parse),
        Err(e) => (Err(e), None),
    }
}

/// Whether the data of a stream carries what its types call for.
pub open spec fn stream_is_complete(
    list: Seq<Seq<char>>,
    check: spec_fn(Seq<char>) -> Result<Json, Seq<char>>,
    parse: spec_fn(Seq<char>) -> Option<Json>,
) -> bool {
    match codex_values(list, check) {
        Ok(values) => all_complete(values, parse),
        Err(_) => true,
    }
}

/// Reads the data of a stream and maps its events.
pub fn parse_codex_stream<
    C: Fn(&str) -> Result<Value, String>,
    P: Fn(&str) -> Option<Value>,
>(list: &Vec<String>, output: &mut AssistantMessage, check: &C, parse: &P) -> (r: Result<
    Vec<ResponseStreamEvent>,
    String,
>)
    requires
        is_checked_parser(*check),
        is_parser(*parse),
        stream_is_complete(texts(list@), checked_parser_of(*check), parser_of(*parse)),
    ensures
        ({
            let m = parsed_stream(texts(list@), checked_parser_of(*check), parser_of(*parse));
            &&& res_events(r) == m.0
            &&& final(output)@ == turn_ended(old(output)@, m.1)
        }),
{
    match read_codex_events(list, check) {
        Ok(values) => map_codex_events(&values, output, parse),
        Err(e) => Err(e),
    }
}

// ---------------------------------------------------------------------------
// Streams
// ---------------------------------------------------------------------------

/// Reads the data of a stream, brings the message in `output` up to date, and
/// adds what is to be sent to `sent`.
pub fn process_stream<
    C: Fn(&str) -> Result<Value, String>,
    P: Fn(&str) -> Option<Value>,
    S: Fn(&str) -> Value,
>(
    list: &Vec<String>,
    output: &mut AssistantMessage,
    sent: &mut Vec<AssistantMessageEvent>,
    options: &OpenAIResponsesStreamOptions,
    check: &C,
    parse: &P,
    read: &S,
) -> (r: Result<(), String>)
    requires
        is_checked_parser(*check),
        is_parser(*parse),
        is_reader(*read),
        stream_is_complete(texts(list@), checked_parser_of(*check), parser_of(*parse)),
    ensures
        ({
            let m = parsed_stream(texts(list@), checked_parser_of(*check), parser_of(*parse));
            let begun = turn_ended(old(output)@, m.1);
            match m.0 {
                Err(e) => outcome(r) == Some(e) && final(output)@ == begun && events(final(sent)@)
                    == events(old(sent)@),
                Ok(wire) => {
                    let end = run(
                        at_start(begun, events(old(sent)@)),
                        wire,
                        option_properties(Some(options)),
                        parser_of(*parse),
                        reader_of(*read),
                    );
                    &&& final(output)@ == end.0.reply
                    &&& events(final(sent)@) == end.0.sent
                    &&& outcome(r) == stream_error(end)
                },
            }
        }),
{
    match parse_codex_stream(list, output, check, parse) {
        Ok(wire) => process_responses_stream(&wire, output, sent, Some(options), parse, read),
        Err(e) => Err(e),
    }
}

/// Whether a reply ended well once its stream is over.
pub fn assert_successful_output(output: &AssistantMessage) -> (r: Result<(), String>)
    ensures
        outcome(r) == stop_error(output@, "Codex stream ended without a stop reason"@),
{
    check_stopped(output, "Codex stream ended without a stop reason")
}

/// A reply that ends with an error, or that was aborted.
pub open spec fn broken_off(m: Reply, error: Seq<char>, aborted: bool) -> Reply {
    Reply {
        stop_reason: if aborted {
            StopReason::Aborted
        } else {
            StopReason::Error
        },
        error_message: Some(error),
        ..m
    }
}

/// What is sent last: the reply, or the error with which it ends.
pub open spec fn final_event(m: Reply, error: Option<Seq<char>>, aborted: bool) -> Event {
    match error {
        None => Event::Done { reason: stop_reason_name(m.stop_reason), message: m },
        Some(error) => {
            let broken = broken_off(m, error, aborted);
            Event::Error { reason: stop_reason_name(broken.stop_reason), error: broken }
        },
    }
}

/// Sends the last event of a reply. `aborted` says whether the caller has
/// aborted the request.
pub fn conclude_reply(
    output: &mut AssistantMessage,
    sent: &mut Vec<AssistantMessageEvent>,
    result: Result<(), String>,
    aborted: bool,
)
    ensures
        events(final(sent)@) == events(old(sent)@).push(
            final_event(old(output)@, outcome(result), aborted),
        ),
        final(output)@ == match outcome(result) {
            None => old(output)@,
            Some(error) => broken_off(old(output)@, error, aborted),
        },
{
    match result {
        Ok(_) => {
            emit(
                sent,
                AssistantMessageEvent::Done {
                    reason: output.stop_reason.as_str().to_owned(),
                    message: output.clone(),
                },
            );
        },
        Err(error) => {
            output.stop_reason = if aborted {
                StopReason::Aborted
            } else {
                StopReason::Error
            };
            output.error_message = Some(error);
            emit(
                sent,
                AssistantMessageEvent::Error {
                    reason: output.stop_reason.as_str().to_owned(),
                    error: output.clone(),
                },
            );
        },
    }
}

// ---------------------------------------------------------------------------
// Laws
// ---------------------------------------------------------------------------

/// Nothing behind the event that ends a response counts.
pub proof fn law_end_is_the_end(
    acc: Seq<WireEvent>,
    last: Json,
    more: Seq<Json>,
    parse: spec_fn(Seq<char>) -> Option<Json>,
)
    requires
        as_object(last) matches Some(e) && (str_at(e, "type"@) matches Some(kind) && (is_terminal(
            kind,
        ) || kind == "error"@ || kind == "response.failed"@)),
    ensures
        mapped(acc, Seq::<Json>::empty().push(last) + more, parse) == mapped(
            acc,
            Seq::<Json>::empty().push(last),
            parse,
        ),
{
    let short = Seq::<Json>::empty().push(last);
    assert((short + more)[0] == last);
}

proof fn lemma_without_all(e: Entries, key: Seq<char>)
    ensures
        forall|i: int|
            0 <= i < without_all(e, key).len() ==> (#[trigger] without_all(e, key)[i]).0 != key,
    decreases e.len(),
{
    if e.len() > 0 {
        lemma_without_all(e.drop_last(), key);
        let before = without_all(e.drop_last(), key);
        assert forall|i: int| 0 <= i < without_all(e, key).len() implies (#[trigger] without_all(
            e,
            key,
        )[i]).0 != key by {
            if i < before.len() {
                assert(without_all(e, key)[i] == before[i]);
            }
        }
    }
}

/// After a response is completed, its status is one that a response can have,
/// or there is none.
pub proof fn law_completed_status_is_known(response: Entries)
    ensures
        get(plain_response(response), "status"@) matches Some(status) ==> match status {
            Json::Str(s) => is_status(s),
            _ => false,
        },
{
    let plain = plain_response(response);
    if known_status(str_at(response, "status"@)) is None {
        lemma_without_all(response, "status"@);
        crate::json::lemma_key_index_is(plain, "status"@, plain.len() as int);
    }
}

} // verus!
