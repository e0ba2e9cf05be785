//! That no token is lost or counted twice.
use vstd::prelude::*;
use crate::api::anthropic_messages::events::AnthropicUsage;
use crate::api::mistral_conversations::events::MistralUsage;
use crate::api::openai_stream::ResponseUsage;
use crate::json::{number_at, object_at, Entries};
use crate::number::{whole, Number};
use crate::types::Usage;

verus! {

/// A count that is not negative and far from what a number can hold.
pub open spec fn is_count(n: Number) -> bool {
    0 <= n.nanos < 1_000_000_000_000_000_000_000_000_000_000
}

/// The count under a key, which is zero where there is none.
pub open spec fn count(e: Entries, key: Seq<char>) -> Number {
    match number_at(e, key) {
        Some(n) => n,
        None => whole(0),
    }
}

/// The count under a key of a nested object.
pub open spec fn count_in(e: Entries, group: Seq<char>, key: Seq<char>) -> Number {
    match object_at(e, group) {
        Some(inner) => count(inner, key),
        None => whole(0),
    }
}

/// A Responses usage: the input, the cached and the written tokens make up the
/// input that was reported; output, reasoning and total are as reported.
pub proof fn law_responses_usage(u: ResponseUsage)
    requires
        is_count(u.input_tokens),
        is_count(u.cached_tokens),
        is_count(u.cache_write_tokens),
        u.cached_tokens.nanos + u.cache_write_tokens.nanos <= u.input_tokens.nanos,
    ensures
        ({
            let used = crate::api::openai_stream::usage_of(u);
            &&& used.input.nanos + used.cache_read.nanos + used.cache_write.nanos
                == u.input_tokens.nanos
            &&& used.cache_read == u.cached_tokens
            &&& used.cache_write == u.cache_write_tokens
            &&& used.output == u.output_tokens
            &&& used.reasoning == Some(u.reasoning_tokens)
            &&& used.total_tokens == u.total_tokens
        }),
{
}

/// A Responses usage is read from the counts that are reported.
pub proof fn law_responses_usage_is_read(e: Entries)
    ensures
        ({
            let u = crate::api::openai_stream::parsed_usage(e);
            &&& u.input_tokens == count(e, "input_tokens"@)
            &&& u.output_tokens == count(e, "output_tokens"@)
            &&& u.total_tokens == count(e, "total_tokens"@)
            &&& u.cached_tokens == count_in(e, "input_tokens_details"@, "cached_tokens"@)
            &&& u.cache_write_tokens == count_in(e, "input_tokens_details"@, "cache_write_tokens"@)
            &&& u.reasoning_tokens == count_in(e, "output_tokens_details"@, "reasoning_tokens"@)
        }),
{
}

/// The usage of a chat completion: the input, the cached and the written tokens
/// make up the prompt, and with the output they make up the total.
pub proof fn law_completions_usage(e: Entries)
    requires
        is_count(count(e, "prompt_tokens"@)),
        is_count(count(e, "completion_tokens"@)),
        is_count(count_in(e, "prompt_tokens_details"@, "cached_tokens"@)),
        is_count(count_in(e, "prompt_tokens_details"@, "cache_write_tokens"@)),
        object_at(e, "prompt_tokens_details"@) matches Some(details) && number_at(
            details,
            "cached_tokens"@,
        ) is Some,
        count_in(e, "prompt_tokens_details"@, "cached_tokens"@).nanos + count_in(
            e,
            "prompt_tokens_details"@,
            "cache_write_tokens"@,
        ).nanos <= count(e, "prompt_tokens"@).nanos,
    ensures
        ({
            let used = crate::api::openai_completions::stream::chunk_tokens(e);
            &&& used.input.nanos + used.cache_read.nanos + used.cache_write.nanos == count(
                e,
                "prompt_tokens"@,
            ).nanos
            &&& used.cache_read == count_in(e, "prompt_tokens_details"@, "cached_tokens"@)
            &&& used.cache_write == count_in(e, "prompt_tokens_details"@, "cache_write_tokens"@)
            &&& used.output == count(e, "completion_tokens"@)
            &&& used.reasoning == Some(
                count_in(e, "completion_tokens_details"@, "reasoning_tokens"@),
            )
            &&& used.total_tokens.nanos == count(e, "prompt_tokens"@).nanos + count(
                e,
                "completion_tokens"@,
            ).nanos
        }),
{
}

/// Cached tokens are also read from where some providers report them.
pub proof fn law_cache_hits_are_read(e: Entries)
    requires
        object_at(e, "prompt_tokens_details"@) is None,
    ensures
        crate::api::openai_completions::stream::chunk_tokens(e).cache_read == count(
            e,
            "prompt_cache_hit_tokens"@,
        ),
{
}

/// The usage at the start of a Messages stream is what is reported, and its total
/// is the sum of all four counts.
pub proof fn law_messages_usage_begins(u: Usage, reported: AnthropicUsage)
    requires
        is_count(reported.input_tokens),
        is_count(reported.output_tokens),
        is_count(reported.cache_read_input_tokens),
        is_count(reported.cache_creation_input_tokens),
    ensures
        ({
            let used = crate::api::anthropic_messages::stream::usage_begun(u, reported);
            &&& used.input == reported.input_tokens
            &&& used.output == reported.output_tokens
            &&& used.cache_read == reported.cache_read_input_tokens
            &&& used.cache_write == reported.cache_creation_input_tokens
            &&& used.cache_write_1h == Some(reported.ephemeral_1h_input_tokens)
            &&& reported.thinking_tokens is Some ==> used.reasoning == reported.thinking_tokens
            &&& reported.thinking_tokens is None ==> used.reasoning == u.reasoning
            &&& used.total_tokens.nanos == reported.input_tokens.nanos
                + reported.output_tokens.nanos + reported.cache_read_input_tokens.nanos
                + reported.cache_creation_input_tokens.nanos
        }),
{
}

/// A later report of a Messages stream replaces the counts that it gives and leaves
/// the others, and the total is the sum of what then stands.
pub proof fn law_messages_usage_goes_on(u: Usage, reported: AnthropicUsage)
    requires
        is_count(reported.input_tokens) && is_count(u.input),
        is_count(reported.output_tokens) && is_count(u.output),
        is_count(reported.cache_read_input_tokens) && is_count(u.cache_read),
        is_count(reported.cache_creation_input_tokens) && is_count(u.cache_write),
    ensures
        ({
            let used = crate::api::anthropic_messages::stream::usage_updated(u, reported);
            &&& used.input == if reported.input_tokens.nanos == 0 {
                u.input
            } else {
                reported.input_tokens
            }
            &&& used.output == if reported.output_tokens.nanos == 0 {
                u.output
            } else {
                reported.output_tokens
            }
            &&& used.cache_read == if reported.cache_read_input_tokens.nanos == 0 {
                u.cache_read
            } else {
                reported.cache_read_input_tokens
            }
            &&& used.cache_write == if reported.cache_creation_input_tokens.nanos == 0 {
                u.cache_write
            } else {
                reported.cache_creation_input_tokens
            }
            &&& used.cache_write_1h == u.cache_write_1h
            &&& reported.thinking_tokens is Some ==> used.reasoning == reported.thinking_tokens
            &&& reported.thinking_tokens is None ==> used.reasoning == u.reasoning
            &&& used.total_tokens.nanos == used.input.nanos + used.output.nanos
                + used.cache_read.nanos + used.cache_write.nanos
        }),
{
}

/// The usage of a Gemini reply: the cached tokens and the input make up the prompt,
/// and the thoughts count as output.
pub proof fn law_gemini_usage(u: Entries)
    requires
        is_count(count(u, "promptTokenCount"@)),
        is_count(count(u, "cachedContentTokenCount"@)),
        is_count(count(u, "candidatesTokenCount"@)),
        is_count(count(u, "thoughtsTokenCount"@)),
        count(u, "cachedContentTokenCount"@).nanos <= count(u, "promptTokenCount"@).nanos,
    ensures
        ({
            let used = crate::api::google_shared::stream::usage_of(u);
            &&& used.input.nanos + used.cache_read.nanos == count(u, "promptTokenCount"@).nanos
            &&& used.cache_read == count(u, "cachedContentTokenCount"@)
            &&& used.output.nanos == count(u, "candidatesTokenCount"@).nanos + count(
                u,
                "thoughtsTokenCount"@,
            ).nanos
            &&& used.reasoning == Some(count(u, "thoughtsTokenCount"@))
            &&& used.total_tokens == count(u, "totalTokenCount"@)
            &&& used.cache_write.nanos == 0
        }),
{
}

/// The usage of a Mistral reply: the cached tokens and the input make up the
/// prompt, and the total is the one that is reported or else the sum.
pub proof fn law_mistral_usage(u: Usage, reported: MistralUsage)
    requires
        is_count(reported.prompt_tokens),
        is_count(reported.cached_tokens),
        is_count(reported.completion_tokens),
        reported.cached_tokens.nanos <= reported.prompt_tokens.nanos,
    ensures
        ({
            let used = crate::api::mistral_conversations::stream::usage_taken(u, reported);
            &&& used.input.nanos + used.cache_read.nanos == reported.prompt_tokens.nanos
            &&& used.cache_read == reported.cached_tokens
            &&& used.output == reported.completion_tokens
            &&& used.cache_write.nanos == 0
            &&& reported.total_tokens.nanos != 0 ==> used.total_tokens == reported.total_tokens
            &&& reported.total_tokens.nanos == 0 ==> used.total_tokens.nanos
                == reported.prompt_tokens.nanos + reported.completion_tokens.nanos
        }),
{
}

/// A Mistral usage is read from the counts that are reported.
pub proof fn law_mistral_usage_is_read(e: Entries)
    ensures
        ({
            let u = crate::api::mistral_conversations::events::parsed_usage(e);
            &&& u.prompt_tokens == count(e, "prompt_tokens"@)
            &&& u.completion_tokens == count(e, "completion_tokens"@)
            &&& u.total_tokens == count(e, "total_tokens"@)
            &&& object_at(e, "promptTokensDetails"@) is None && object_at(
                e,
                "prompt_tokens_details"@,
            ) is Some && number_at(
                object_at(e, "prompt_tokens_details"@)->0,
                "cached_tokens"@,
            ) is Some && is_count(
                count_in(e, "prompt_tokens_details"@, "cached_tokens"@),
            ) && count_in(e, "prompt_tokens_details"@, "cached_tokens"@).nanos
                <= u.prompt_tokens.nanos ==> u.cached_tokens == count_in(
                e,
                "prompt_tokens_details"@,
                "cached_tokens"@,
            )
        }),
{
}

} // verus!
