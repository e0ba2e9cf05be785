//! What the two Google interfaces have in common.
use vstd::prelude::*;
use vstd::string::*;
use crate::api::constrained_sampling::{strict_or_none, strict_sampling_or_none};
use crate::json::{as_object, bool_at, get_bool, get_str, str_at, Json, Value};
use crate::text::{
    ascii_lower, cat2, char_count, char_is_alnum, count_digits, digit_run, is_alnum, opt_str,
    opt_text, parse_u32, skip_chars, starts_with, str_eq, take_chars, to_ascii_lowercase, to_chars,
    u32_of,
};
use crate::types::{StopReason, Tool};

pub mod messages;
pub mod stream;

verus! {

pub const GOOGLE_THINKING_LEVELS: [&'static str; 5] = [
    "THINKING_LEVEL_UNSPECIFIED",
    "MINIMAL",
    "LOW",
    "MEDIUM",
    "HIGH",
];

// ---------------------------------------------------------------------------
// Parts of a streamed reply
// ---------------------------------------------------------------------------

/// Whether a part is a thought: `thought` is true.
pub open spec fn is_thought(part: Json) -> bool {
    match as_object(part) {
        Some(e) => bool_at(e, "thought"@) == Some(true),
        None => false,
    }
}

pub fn is_thinking_part(part: &Value) -> (r: bool)
    ensures
        r == is_thought(part@),
{
    match part.as_object() {
        Some(e) => match get_bool(e, "thought") {
            Some(b) => b,
            None => false,
        },
        None => false,
    }
}

/// The text of a part, where it has one.
pub open spec fn part_text(part: Json) -> Option<Seq<char>> {
    match as_object(part) {
        Some(e) => str_at(e, "text"@),
        None => None,
    }
}

/// The text of a streamed part.
pub fn part_text_value(part: &Value) -> (r: Option<String>)
    ensures
        opt_text(r) == part_text(part@),
{
    match part.as_object() {
        Some(e) => get_str(e, "text"),
        None => None,
    }
}

// ---------------------------------------------------------------------------
// Signatures of thoughts
// ---------------------------------------------------------------------------

/// The signature of a block: the last that is not empty.
pub open spec fn retained(existing: Option<Seq<char>>, incoming: Option<Seq<char>>) -> Option<
    Seq<char>,
> {
    match incoming {
        Some(s) if s.len() > 0 => Some(s),
        _ => existing,
    }
}

pub fn retain_thought_signature(existing: Option<String>, incoming: Option<&str>) -> (r: Option<
    String,
>)
    ensures
        opt_text(r) == retained(opt_text(existing), opt_str(incoming)),
{
    match incoming {
        Some(s) => if s.is_empty() {
            existing
        } else {
            Some(s.to_owned())
        },
        None => existing,
    }
}

/// A digit of base64.
pub open spec fn is_base64_digit(c: char) -> bool {
    is_alnum(c) || c == '+' || c == '/'
}

/// Whether a text is base64: its length is a multiple of four, and it is made of
/// digits of base64, with at most two equals signs behind them.
pub open spec fn is_base64(s: Seq<char>) -> bool {
    let n = s.len() as int;
    &&& n > 0
    &&& n % 4 == 0
    &&& forall|i: int| 0 <= i < n - 2 ==> is_base64_digit(#[trigger] s[i])
    &&& is_base64_digit(s[n - 2]) || (s[n - 2] == '=' && s[n - 1] == '=')
    &&& is_base64_digit(s[n - 1]) || s[n - 1] == '='
}

fn char_is_base64_digit(c: char) -> (r: bool)
    ensures
        r == is_base64_digit(c),
{
    char_is_alnum(c) || c == '+' || c == '/'
}

pub fn is_valid_thought_signature(signature: &str) -> (r: bool)
    ensures
        r == is_base64(signature@),
{
    let cs = to_chars(signature);
    let n: usize = cs.len();
    if n == 0 || n % 4 != 0 {
        return false;
    }
    let mut i: usize = 0;
    while i < n - 2
        invariant
            i <= n - 2,
            n >= 4,
            n == cs@.len(),
            cs@ == signature@,
            forall|j: int| 0 <= j < i ==> is_base64_digit(#[trigger] signature@[j]),
        decreases n - i,
    {
        if !char_is_base64_digit(cs[i]) {
            assert(!is_base64_digit(signature@[i as int]));
            return false;
        }
        i += 1;
    }
    let padded = cs[n - 1] == '=';
    (char_is_base64_digit(cs[n - 2]) || (cs[n - 2] == '=' && padded)) && (char_is_base64_digit(
        cs[n - 1],
    ) || padded)
}

/// A signature is kept only for the model that made it, and where it is base64.
pub open spec fn usable_signature(same_model: bool, signature: Option<Seq<char>>) -> Option<
    Seq<char>,
> {
    match signature {
        Some(s) if same_model && is_base64(s) => Some(s),
        _ => None,
    }
}

pub fn resolve_thought_signature(same_model: bool, signature: Option<&str>) -> (r: Option<String>)
    ensures
        opt_text(r) == usable_signature(same_model, opt_str(signature)),
{
    match signature {
        Some(s) => if same_model && is_valid_thought_signature(s) {
            Some(s.to_owned())
        } else {
            None
        },
        None => None,
    }
}

// ---------------------------------------------------------------------------
// What a model can do
// ---------------------------------------------------------------------------

/// What follows the family name of a Gemini model.
pub open spec fn gemini_rest(id: Seq<char>) -> Option<Seq<char>> {
    let lower = ascii_lower(id);
    if "gemini-live-"@.is_prefix_of(lower) {
        Some(lower.skip("gemini-live-"@.len() as int))
    } else if "gemini-"@.is_prefix_of(lower) {
        Some(lower.skip("gemini-"@.len() as int))
    } else {
        None
    }
}

/// The major version of a Gemini model: the digits behind the family name.
pub open spec fn gemini_version(id: Seq<char>) -> Option<nat> {
    match gemini_rest(id) {
        Some(rest) => u32_of(rest.take(digit_run(rest) as int)),
        None => None,
    }
}

/// Whether a model is of the third generation of Gemini or later.
pub open spec fn is_gemini3(id: Seq<char>) -> bool {
    match gemini_version(id) {
        Some(version) => version >= 3,
        None => false,
    }
}

fn version_in(rest: &str) -> (r: Option<u32>)
    ensures
        match r {
            Some(n) => u32_of(rest@.take(digit_run(rest@) as int)) == Some(n as nat),
            None => u32_of(rest@.take(digit_run(rest@) as int)) is None,
        },
{
    let n: usize = count_digits(rest);
    let digits = take_chars(rest, n);
    proof {
        assert(digits@ =~= rest@.take(n as int));
    }
    parse_u32(digits.as_str())
}

pub fn get_gemini_major_version(model_id: &str) -> (r: Option<u32>)
    ensures
        match r {
            Some(n) => gemini_version(model_id@) == Some(n as nat),
            None => gemini_version(model_id@) is None,
        },
{
    let lower = to_ascii_lowercase(model_id);
    if starts_with(lower.as_str(), "gemini-live-") {
        let rest = skip_chars(lower.as_str(), char_count("gemini-live-"));
        version_in(rest.as_str())
    } else if starts_with(lower.as_str(), "gemini-") {
        let rest = skip_chars(lower.as_str(), char_count("gemini-"));
        version_in(rest.as_str())
    } else {
        None
    }
}

/// Whether a model wants every tool call to have an identifier. `series` is the
/// id of Anthropic's series of models.
pub open spec fn needs_call_id(id: Seq<char>, series: Seq<char>) -> bool {
    (series + "-"@).is_prefix_of(id) || "gpt-oss-"@.is_prefix_of(id) || is_gemini3(id)
}

pub fn requires_tool_call_id(model_id: &str, series: &str) -> (r: bool)
    ensures
        r == needs_call_id(model_id@, series@),
{
    let gemini3 = supports_google_strict_tool_sampling(model_id);
    let prefix = cat2(series, "-");
    starts_with(model_id, prefix.as_str()) || starts_with(model_id, "gpt-oss-") || gemini3
}

/// Whether the result of a tool can hold images: with Gemini from its third
/// generation on. Every other model gets them in a turn of the user.
pub open spec fn takes_images_in_results(id: Seq<char>) -> bool {
    is_gemini3(id)
}

pub fn supports_multimodal_function_response(model_id: &str) -> (r: bool)
    ensures
        r == takes_images_in_results(model_id@),
{
    match get_gemini_major_version(model_id) {
        Some(version) => version >= 3,
        None => false,
    }
}

/// Gemini enforces the parameters of a tool from its third generation on.
pub fn supports_google_strict_tool_sampling(model_id: &str) -> (r: bool)
    ensures
        r == is_gemini3(model_id@),
{
    match get_gemini_major_version(model_id) {
        Some(version) => version >= 3,
        None => false,
    }
}

// ---------------------------------------------------------------------------
// The choice of a tool
// ---------------------------------------------------------------------------

pub open spec fn choice_mode(choice: Seq<char>) -> Seq<char> {
    if choice == "none"@ {
        "NONE"@
    } else if choice == "any"@ {
        "ANY"@
    } else {
        "AUTO"@
    }
}

pub fn map_tool_choice(choice: &str) -> (r: &'static str)
    ensures
        r@ == choice_mode(choice@),
{
    if str_eq(choice, "none") {
        "NONE"
    } else if str_eq(choice, "any") {
        "ANY"
    } else {
        "AUTO"
    }
}

/// Whether some tool asks for strict sampling and gets it.
pub open spec fn some_tool_is_strict(tools: Seq<Tool>, supports_strict_mode: bool) -> bool {
    exists|i: int|
        0 <= i < tools.len() && strict_or_none(#[trigger] tools[i], supports_strict_mode) == Some(true)
}

/// How the model is told to call functions.
pub open spec fn calling_mode(
    tools: Seq<Tool>,
    choice: Option<Seq<char>>,
    supports_strict_mode: bool,
) -> Option<Seq<char>> {
    if choice == Some("none"@) || choice == Some("any"@) {
        Some(choice_mode(choice.unwrap()))
    } else if some_tool_is_strict(tools, supports_strict_mode) {
        Some("VALIDATED"@)
    } else {
        match choice {
            Some(choice) => Some(choice_mode(choice)),
            None => None,
        }
    }
}

fn any_strict(tools: &Vec<Tool>, supports_strict_mode: bool) -> (r: bool)
    ensures
        r == some_tool_is_strict(tools@, supports_strict_mode),
{
    let mut i: usize = 0;
    while i < tools.len()
        invariant
            i <= tools@.len(),
            forall|j: int|
                0 <= j < i ==> strict_or_none(#[trigger] tools@[j], supports_strict_mode) != Some(
                    true,
                ),
        decreases tools.len() - i,
    {
        match strict_sampling_or_none(&tools[i], supports_strict_mode) {
            Some(true) => {
                assert(strict_or_none(tools@[i as int], supports_strict_mode) == Some(true));
                return true;
            },
            _ => {},
        }
        i += 1;
    }
    false
}

pub fn resolve_google_function_calling_mode(
    tools: &Vec<Tool>,
    tool_choice: Option<&str>,
    supports_strict_mode: bool,
) -> (r: Option<String>)
    ensures
        opt_text(r) == calling_mode(tools@, opt_str(tool_choice), supports_strict_mode),
{
    let use_strict_mode = any_strict(tools, supports_strict_mode);
    match tool_choice {
        Some(choice) => if str_eq(choice, "none") || str_eq(choice, "any") {
            Some(map_tool_choice(choice).to_owned())
        } else if use_strict_mode {
            Some("VALIDATED".to_owned())
        } else {
            Some(map_tool_choice(choice).to_owned())
        },
        None => if use_strict_mode {
            Some("VALIDATED".to_owned())
        } else {
            None
        },
    }
}

// ---------------------------------------------------------------------------
// Why a reply ended
// ---------------------------------------------------------------------------

/// Only `STOP` and `MAX_TOKENS` are no errors.
pub open spec fn mapped_stop(reason: Seq<char>) -> StopReason {
    if reason == "STOP"@ {
        StopReason::Stop
    } else if reason == "MAX_TOKENS"@ {
        StopReason::Length
    } else {
        StopReason::Error
    }
}

/// What a reason of the provider means.
pub fn map_stop_reason(reason: &str) -> (r: StopReason)
    ensures
        r == mapped_stop(reason@),
{
    if str_eq(reason, "STOP") {
        StopReason::Stop
    } else if str_eq(reason, "MAX_TOKENS") {
        StopReason::Length
    } else {
        StopReason::Error
    }
}

/// What a reason of the provider means, as it stands in a response.
pub fn map_stop_reason_string(reason: &str) -> (r: StopReason)
    ensures
        r == mapped_stop(reason@),
{
    map_stop_reason(reason)
}

} // verus!
