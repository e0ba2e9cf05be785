//! When a request that failed is tried again, and after how long.
use vstd::prelude::*;
use vstd::string::*;
use super::events::{error_text, parse_error_response};
use super::request::OpenAICodexResponsesOptions;
use crate::api::headers::{find_name, has_name, name_index, Pairs};
use crate::json::{is_parser, parser_of, Json, Value};
use crate::number::{
    excess, greater, index_value, is_number_reader, number_reader_of, read_number_with,
    thousandfold, whole, Number, ONE,
};
use crate::pattern::{matches_pattern, says_busy, says_terminal_limit};
use crate::text::{cat5, decimal, decimal_text, opt_str};
use crate::types::pairs;

verus! {

/// How often a request is tried again where nothing else is asked for.
pub const DEFAULT_MAX_RETRIES: u64 = 0;

/// How long it takes until a request is first tried again, in milliseconds.
pub const BASE_DELAY_MS: u64 = 1000;

/// The longest delay that a server may ask for, in milliseconds, where nothing
/// else is asked for.
pub const DEFAULT_MAX_RETRY_DELAY_MS: u64 = 60_000;

/// Whether an error says that a limit is reached for good.
pub fn is_terminal_rate_limit_error(error_text: &str) -> (r: bool)
    ensures
        r == says_terminal_limit(error_text@),
{
    matches_pattern(
        "GoUsageLimitError|FreeUsageLimitError|Monthly usage limit reached|available balance|insufficient_quota|out of budget|quota exceeded|billing",
        error_text,
    )
}

/// Whether a request that failed may be tried again.
pub open spec fn is_retryable(status: Option<u16>, error_text: Seq<char>) -> bool {
    match status {
        Some(429) => !says_terminal_limit(error_text),
        Some(500) | Some(502) | Some(503) | Some(504) => true,
        _ => says_busy(error_text),
    }
}

pub fn is_retryable_error(status: Option<u16>, error_text: &str) -> (r: bool)
    ensures
        r == is_retryable(status, error_text@),
{
    match status {
        Some(429) => !is_terminal_rate_limit_error(error_text),
        Some(500) | Some(502) | Some(503) | Some(504) => true,
        _ => matches_pattern(
            "rate.?limit|overloaded|service.?unavailable|upstream.?connect|connection.?refused",
            error_text,
        ),
    }
}

// ---------------------------------------------------------------------------
// Delays
// ---------------------------------------------------------------------------

/// The value of the first header with a name, whatever its case.
pub open spec fn header_value(headers: Pairs, name: Seq<char>) -> Option<Seq<char>> {
    if has_name(headers, name) {
        Some(headers[name_index(headers, name)].1)
    } else {
        None
    }
}

fn find_header<'a>(headers: &'a Vec<(String, String)>, name: &str) -> (r: Option<&'a str>)
    ensures
        opt_str(r) == header_value(pairs(headers@), name@),
{
    match find_name(headers, name) {
        Some(i) => Some(headers[i].1.as_str()),
        None => None,
    }
}

/// The delay that `retry-after` asks for: a number of seconds, or a date.
pub open spec fn retry_after(
    value: Option<Seq<char>>,
    number: spec_fn(Seq<char>) -> Option<Number>,
    date: spec_fn(Seq<char>) -> Option<Number>,
    now: Number,
) -> Option<Number> {
    match value {
        Some(value) => match number(value) {
            Some(seconds) => Some(greater(thousandfold(seconds), whole(0))),
            None => match date(value) {
                Some(at) => Some(excess(at, now)),
                None => None,
            },
        },
        None => None,
    }
}

/// The delay that a server asks for, in milliseconds: what `retry-after-ms`
/// says where it is a number, else what `retry-after` says.
pub open spec fn requested_delay(
    headers: Pairs,
    number: spec_fn(Seq<char>) -> Option<Number>,
    date: spec_fn(Seq<char>) -> Option<Number>,
    now: Number,
) -> Option<Number> {
    let otherwise = retry_after(header_value(headers, "retry-after"@), number, date, now);
    match header_value(headers, "retry-after-ms"@) {
        Some(value) => match number(value) {
            Some(millis) => Some(greater(millis, whole(0))),
            None => otherwise,
        },
        None => otherwise,
    }
}

/// The delay that a server asks for, in milliseconds. `number` reads a finite
/// number, `date` reads an HTTP date as milliseconds since 1970, as `now` is.
pub fn get_retry_after_delay_ms<N: Fn(&str) -> Option<Number>, D: Fn(&str) -> Option<Number>>(
    headers: &Vec<(String, String)>,
    number: &N,
    date: &D,
    now: Number,
) -> (r: Option<Number>)
    requires
        is_number_reader(*number),
        is_number_reader(*date),
    ensures
        r == requested_delay(
            pairs(headers@),
            number_reader_of(*number),
            number_reader_of(*date),
            now,
        ),
{
    if let Some(value) = find_header(headers, "retry-after-ms") {
        if let Some(millis) = read_number_with(number, value) {
            return Some(millis.max(Number::zero()));
        }
    }
    match find_header(headers, "retry-after") {
        Some(value) => match read_number_with(number, value) {
            Some(seconds) => Some(seconds.thousandfold().max(Number::zero())),
            None => match read_number_with(date, value) {
                Some(at) => Some(at.less(now)),
                None => None,
            },
        },
        None => None,
    }
}

/// The whole seconds that hold a positive number of milliseconds.
pub open spec fn seconds_up(millis: Number) -> nat {
    let second = 1000 * ONE;
    ((millis.nanos + second - 1) / second) as nat
}

fn count_seconds(millis: Number) -> (r: u128)
    requires
        millis.nanos > 0,
    ensures
        r == seconds_up(millis),
{
    let second: u128 = 1000 * ONE as u128;
    (millis.nanos as u128 + second - 1) / second
}

/// The longest delay that a server may ask for; zero stands for no limit.
pub open spec fn delay_limit(options: Option<&OpenAICodexResponsesOptions>) -> Number {
    whole(
        match options {
            Some(o) => match o.stream.request.max_retry_delay_ms {
                Some(max) => max as int,
                None => DEFAULT_MAX_RETRY_DELAY_MS as int,
            },
            None => DEFAULT_MAX_RETRY_DELAY_MS as int,
        },
    )
}

/// A delay, or that it is over the limit.
pub open spec fn checked_delay(delay: Number, limit: Number) -> Result<Number, Seq<char>> {
    if limit.nanos > 0 && delay.nanos > limit.nanos {
        Err(
            "Server requested "@ + decimal(seconds_up(delay)) + "s retry delay (max: "@ + decimal(
                seconds_up(limit),
            ) + "s)"@,
        )
    } else {
        Ok(delay)
    }
}

/// What a checked delay holds.
pub open spec fn res_delay(r: Result<Number, String>) -> Result<Number, Seq<char>> {
    match r {
        Ok(delay) => Ok(delay),
        Err(e) => Err(e@),
    }
}

pub fn validate_retry_delay_ms(
    delay_ms: Number,
    options: Option<&OpenAICodexResponsesOptions>,
) -> (r: Result<Number, String>)
    ensures
        res_delay(r) == checked_delay(delay_ms, delay_limit(options)),
{
    let max: u64 = match options {
        Some(o) => match o.stream.request.max_retry_delay_ms {
            Some(max) => max,
            None => DEFAULT_MAX_RETRY_DELAY_MS,
        },
        None => DEFAULT_MAX_RETRY_DELAY_MS,
    };
    let limit = Number::from_u64(max);
    if limit.nanos > 0 && delay_ms.nanos > limit.nanos {
        return Err(
            cat5(
                "Server requested ",
                decimal_text(count_seconds(delay_ms)).as_str(),
                "s retry delay (max: ",
                decimal_text(count_seconds(limit)).as_str(),
                "s)",
            ),
        );
    }
    Ok(delay_ms)
}

/// The delay before a try where the server asks for none: it doubles each time.
pub open spec fn backoff(attempt: nat) -> nat
    decreases attempt,
{
    if attempt == 0 {
        BASE_DELAY_MS as nat
    } else {
        2 * backoff((attempt - 1) as nat)
    }
}

proof fn lemma_backoff_grows(a: nat, b: nat)
    requires
        a <= b,
    ensures
        backoff(a) <= backoff(b),
    decreases b,
{
    if a < b {
        lemma_backoff_grows(a, (b - 1) as nat);
    }
}

/// The delay before a try where the server asks for none.
pub fn backoff_ms(attempt: u64) -> (r: u64)
    requires
        attempt <= 54,
    ensures
        r == backoff(attempt as nat),
{
    let mut delay: u64 = BASE_DELAY_MS;
    let mut i: u64 = 0;
    proof {
        assert(backoff(54) <= u64::MAX) by {
            reveal_with_fuel(backoff, 55);
        }
    }
    while i < attempt
        invariant
            i <= attempt <= 54,
            delay == backoff(i as nat),
            backoff(54) <= u64::MAX,
        decreases attempt - i,
    {
        proof {
            lemma_backoff_grows((i + 1) as nat, 54);
        }
        delay = delay * 2;
        i += 1;
    }
    delay
}

// ---------------------------------------------------------------------------
// Decisions
// ---------------------------------------------------------------------------

/// What follows a request that failed.
#[derive(Debug, PartialEq, Eq)]
pub enum RetryDecision {
    /// It is tried again after a number of milliseconds.
    Retry { delay_ms: u64 },
    /// It has failed for good.
    Fail { message: String },
}

/// What a decision holds.
pub enum Decision {
    Retry { delay_ms: u64 },
    Fail { message: Seq<char> },
}

impl View for RetryDecision {
    type V = Decision;

    open spec fn view(&self) -> Decision {
        match *self {
            RetryDecision::Retry { delay_ms } => Decision::Retry { delay_ms },
            RetryDecision::Fail { message } => Decision::Fail { message: message@ },
        }
    }
}

pub open spec fn retries_allowed(options: Option<&OpenAICodexResponsesOptions>) -> u64 {
    match options {
        Some(o) => match o.stream.request.max_retries {
            Some(n) => n,
            None => DEFAULT_MAX_RETRIES,
        },
        None => DEFAULT_MAX_RETRIES,
    }
}

pub fn max_retries(options: Option<&OpenAICodexResponsesOptions>) -> (r: u64)
    ensures
        r == retries_allowed(options),
{
    match options {
        Some(o) => match o.stream.request.max_retries {
            Some(n) => n,
            None => DEFAULT_MAX_RETRIES,
        },
        None => DEFAULT_MAX_RETRIES,
    }
}

/// What follows a request that failed: it is tried again where tries are left
/// and the error may pass, after the delay that the server asks for or one that
/// doubles each time.
pub open spec fn decision(
    attempt: u64,
    status: Option<u16>,
    message: Seq<char>,
    requested: Option<Number>,
    options: Option<&OpenAICodexResponsesOptions>,
    parse: spec_fn(Seq<char>) -> Option<Json>,
    now: Number,
) -> Decision {
    if attempt < retries_allowed(options) && is_retryable(status, message) {
        match requested {
            Some(delay) => match checked_delay(delay, delay_limit(options)) {
                Ok(delay) => Decision::Retry { delay_ms: index_value(delay) },
                Err(e) => Decision::Fail { message: e },
            },
            None => Decision::Retry { delay_ms: backoff(attempt as nat) as u64 },
        }
    } else {
        Decision::Fail { message: error_text(message, status, parse, now) }
    }
}

/// Decides what follows a request that failed on its try number `attempt`,
/// counted from zero. `requested` is the delay that the server asks for.
pub fn decide_retry<P: Fn(&str) -> Option<Value>>(
    attempt: u64,
    status: Option<u16>,
    message: &str,
    requested: Option<Number>,
    options: Option<&OpenAICodexResponsesOptions>,
    parse: &P,
    now: Number,
) -> (r: RetryDecision)
    requires
        is_parser(*parse),
        attempt < retries_allowed(options) && is_retryable(status, message@) && requested is None
            ==> attempt <= 54,
    ensures
        r@ == decision(attempt, status, message@, requested, options, parser_of(*parse), now),
{
    if attempt < max_retries(options) && is_retryable_error(status, message) {
        match requested {
            Some(delay) => match validate_retry_delay_ms(delay, options) {
                Ok(delay) => RetryDecision::Retry { delay_ms: delay.index() },
                Err(message) => RetryDecision::Fail { message },
            },
            None => RetryDecision::Retry { delay_ms: backoff_ms(attempt) },
        }
    } else {
        RetryDecision::Fail { message: parse_error_response(message, status, parse, now) }
    }
}

// ---------------------------------------------------------------------------
// Laws
// ---------------------------------------------------------------------------

/// A request is tried again only while tries are left, and never where a limit
/// is reached for good.
pub proof fn law_retries_are_bounded(
    attempt: u64,
    status: Option<u16>,
    message: Seq<char>,
    requested: Option<Number>,
    options: Option<&OpenAICodexResponsesOptions>,
    parse: spec_fn(Seq<char>) -> Option<Json>,
    now: Number,
)
    ensures
        decision(attempt, status, message, requested, options, parse, now) is Retry ==> attempt
            < retries_allowed(options) && !(status == Some(429u16) && says_terminal_limit(message)),
{
}

/// A delay that a server asks for is never longer than the limit, where there
/// is one.
pub proof fn law_delay_stays_in_limit(delay: Number, limit: Number)
    ensures
        checked_delay(delay, limit) matches Ok(d) ==> d == delay && (limit.nanos > 0 ==> d.nanos
            <= limit.nanos),
{
}

} // verus!
