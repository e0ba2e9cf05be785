//! The patterns that texts are searched for.
use vstd::prelude::*;
use crate::text::{contains_text, digit_run, is_ascii_text, occurs_at};

verus! {

/// The patterns that the library searches for.
pub open spec fn is_known_pattern(pattern: Seq<char>) -> bool {
    ||| pattern == "gemini-3(?:\\.\\d+)?-pro"@
    ||| pattern == "gemini-3(?:\\.\\d+)?-flash"@
    ||| pattern
        == "GoUsageLimitError|FreeUsageLimitError|Monthly usage limit reached|available balance|insufficient_quota|out of budget|quota exceeded|billing"@
    ||| pattern
        == "rate.?limit|overloaded|service.?unavailable|upstream.?connect|connection.?refused"@
    ||| pattern == "usage_limit_reached|usage_not_included|rate_limit_exceeded"@
}

/// Whether a text says that a limit is reached for good.
pub open spec fn says_terminal_limit(text: Seq<char>) -> bool {
    ||| contains_text(text, "GoUsageLimitError"@)
    ||| contains_text(text, "FreeUsageLimitError"@)
    ||| contains_text(text, "Monthly usage limit reached"@)
    ||| contains_text(text, "available balance"@)
    ||| contains_text(text, "insufficient_quota"@)
    ||| contains_text(text, "out of budget"@)
    ||| contains_text(text, "quota exceeded"@)
    ||| contains_text(text, "billing"@)
}

/// Whether `first` stands in a text at `i` and `second` behind it, with at most
/// one character other than a line feed between them.
pub open spec fn near_at(text: Seq<char>, first: Seq<char>, second: Seq<char>, i: int) -> bool {
    &&& occurs_at(text, first, i)
    &&& {
        ||| occurs_at(text, second, i + first.len())
        ||| text[i + first.len()] != '\n' && occurs_at(text, second, i + first.len() + 1)
    }
}

/// Whether `first` stands in a text with `second` behind it, with at most one
/// character other than a line feed between them.
pub open spec fn contains_near(text: Seq<char>, first: Seq<char>, second: Seq<char>) -> bool {
    exists|i: int| near_at(text, first, second, i)
}

/// Whether a text says that a service is busy for now.
pub open spec fn says_busy(text: Seq<char>) -> bool {
    ||| contains_near(text, "rate"@, "limit"@)
    ||| contains_text(text, "overloaded"@)
    ||| contains_near(text, "service"@, "unavailable"@)
    ||| contains_near(text, "upstream"@, "connect"@)
    ||| contains_near(text, "connection"@, "refused"@)
}

/// Whether the code of an error is one of a usage limit.
pub open spec fn is_usage_code(code: Seq<char>) -> bool {
    ||| contains_text(code, "usage_limit_reached"@)
    ||| contains_text(code, "usage_not_included"@)
    ||| contains_text(code, "rate_limit_exceeded"@)
}

/// Whether a model of the third generation of Gemini is named at `i`: by its
/// generation, perhaps a minor version, and its variant.
pub open spec fn gemini3_at(text: Seq<char>, variant: Seq<char>, i: int) -> bool {
    &&& occurs_at(text, "gemini-3"@, i)
    &&& {
        let rest = text.skip(i + "gemini-3"@.len());
        ||| variant.is_prefix_of(rest)
        ||| rest.len() > 0 && rest[0] == '.' && digit_run(rest.skip(1)) > 0
            && variant.is_prefix_of(rest.skip((1 + digit_run(rest.skip(1))) as int))
    }
}

/// Whether a variant of the third generation of Gemini is named anywhere.
pub open spec fn names_gemini3(text: Seq<char>, variant: Seq<char>) -> bool {
    exists|i: int| gemini3_at(text, variant, i)
}

/// What `regex::Regex::is_match` says of a pattern and a text.
pub uninterp spec fn pattern_matches(pattern: Seq<char>, text: Seq<char>) -> bool;

/// `regex::Regex::new` and `regex::Regex::is_match`: whether a pattern matches
/// anywhere in a text. An alternation matches where one of its branches does, a
/// literal where it stands in the text, and `.?` stands for at most one
/// character other than a line feed. `\d` is stated for ASCII text only, where
/// it stands for a decimal digit; elsewhere it stands for the decimal digits of
/// every script.
#[verifier::external_body]
pub(crate) fn matches_pattern(pattern: &str, text: &str) -> (r: bool)
    requires
        is_known_pattern(pattern@),
    ensures
        r == pattern_matches(pattern@, text@),
        pattern@ == "gemini-3(?:\\.\\d+)?-pro"@ && is_ascii_text(text@) ==> r == names_gemini3(
            text@,
            "-pro"@,
        ),
        pattern@ == "gemini-3(?:\\.\\d+)?-flash"@ && is_ascii_text(text@) ==> r == names_gemini3(
            text@,
            "-flash"@,
        ),
        pattern@
            == "GoUsageLimitError|FreeUsageLimitError|Monthly usage limit reached|available balance|insufficient_quota|out of budget|quota exceeded|billing"@
            ==> r == says_terminal_limit(text@),
        pattern@
            == "rate.?limit|overloaded|service.?unavailable|upstream.?connect|connection.?refused"@
            ==> r == says_busy(text@),
        pattern@ == "usage_limit_reached|usage_not_included|rate_limit_exceeded"@ ==> r
            == is_usage_code(text@),
{
    regex::Regex::new(pattern).expect("valid pattern").is_match(text)
}

} // verus!
