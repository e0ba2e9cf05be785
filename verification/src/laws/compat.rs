//! What is known of a provider, and that what is stated of it wins.
use vstd::prelude::*;
use crate::api::openai_completions::compat::{detected, families, resolved};
use crate::types::{Model, ModelCompat};

verus! {

/// What is stated of a model wins over what its provider lets expect, field by
/// field; where nothing is stated the expectation holds.
pub proof fn law_stated_compat_wins(model: Model)
    ensures
        model.compat is None ==> resolved(model) == detected(model),
        model.compat matches Some(ModelCompat::OpenAiCompletions(c)) ==> {
            let r = resolved(model);
            let d = detected(model);
            &&& r.supports_store == if c.supports_store is Some {
                c.supports_store->0
            } else {
                d.supports_store
            }
            &&& r.supports_developer_role == if c.supports_developer_role is Some {
                c.supports_developer_role->0
            } else {
                d.supports_developer_role
            }
            &&& r.supports_reasoning_effort == if c.supports_reasoning_effort is Some {
                c.supports_reasoning_effort->0
            } else {
                d.supports_reasoning_effort
            }
            &&& r.supports_usage_in_streaming == if c.supports_usage_in_streaming is Some {
                c.supports_usage_in_streaming->0
            } else {
                d.supports_usage_in_streaming
            }
            &&& r.supports_finish_reason == if c.supports_finish_reason is Some {
                c.supports_finish_reason->0
            } else {
                d.supports_finish_reason
            }
            &&& r.requires_tool_result_name == if c.requires_tool_result_name is Some {
                c.requires_tool_result_name->0
            } else {
                d.requires_tool_result_name
            }
            &&& r.requires_assistant_after_tool_result
                == if c.requires_assistant_after_tool_result is Some {
                c.requires_assistant_after_tool_result->0
            } else {
                d.requires_assistant_after_tool_result
            }
            &&& r.requires_thinking_as_text == if c.requires_thinking_as_text is Some {
                c.requires_thinking_as_text->0
            } else {
                d.requires_thinking_as_text
            }
            &&& r.requires_reasoning_content_on_assistant_messages
                == if c.requires_reasoning_content_on_assistant_messages is Some {
                c.requires_reasoning_content_on_assistant_messages->0
            } else {
                d.requires_reasoning_content_on_assistant_messages
            }
            &&& r.zai_tool_stream == if c.zai_tool_stream is Some {
                c.zai_tool_stream->0
            } else {
                d.zai_tool_stream
            }
            &&& r.supports_thinking_token_budget == if c.supports_thinking_token_budget is Some {
                c.supports_thinking_token_budget->0
            } else {
                d.supports_thinking_token_budget
            }
            &&& r.supports_strict_mode == if c.supports_strict_mode is Some {
                c.supports_strict_mode->0
            } else {
                d.supports_strict_mode
            }
            &&& r.supports_openai_grammar_tools == if c.supports_openai_grammar_tools is Some {
                c.supports_openai_grammar_tools->0
            } else {
                d.supports_openai_grammar_tools
            }
            &&& r.send_session_affinity_headers == if c.send_session_affinity_headers is Some {
                c.send_session_affinity_headers->0
            } else {
                d.send_session_affinity_headers
            }
            &&& r.supports_long_cache_retention == if c.supports_long_cache_retention is Some {
                c.supports_long_cache_retention->0
            } else {
                d.supports_long_cache_retention
            }
            &&& r.max_tokens_field == if c.max_tokens_field is Some {
                c.max_tokens_field->0@
            } else {
                d.max_tokens_field
            }
            &&& r.thinking_format == if c.thinking_format is Some {
                c.thinking_format->0@
            } else {
                d.thinking_format
            }
            &&& r.session_affinity_format == if c.session_affinity_format is Some {
                c.session_affinity_format->0@
            } else {
                d.session_affinity_format
            }
            &&& c.cache_control_format is Some ==> r.cache_control_format == Some(
                c.cache_control_format->0@,
            )
            &&& c.cache_control_format is None ==> r.cache_control_format == d.cache_control_format
            &&& c.deferred_tools_mode is Some ==> r.deferred_tools_mode == Some(
                c.deferred_tools_mode->0@,
            )
            &&& c.deferred_tools_mode is None ==> r.deferred_tools_mode is None
        },
{
}

/// What some providers let expect, whatever their address is.
pub proof fn law_providers_are_known(model: Model)
    ensures
        ({
            let d = detected(model);
            &&& d.supports_usage_in_streaming && d.supports_finish_reason
            &&& !d.requires_tool_result_name && !d.requires_assistant_after_tool_result
                && !d.requires_thinking_as_text && !d.zai_tool_stream
            &&& !d.supports_openai_grammar_tools && !d.send_session_affinity_headers
                && !d.supports_thinking_token_budget
            &&& model.provider@ == "deepseek"@ ==> d.thinking_format == "deepseek"@
                && d.max_tokens_field == "max_tokens"@
                && d.requires_reasoning_content_on_assistant_messages
            &&& model.provider@ == "xai"@ ==> !d.supports_reasoning_effort && !d.supports_store
                && !d.supports_developer_role || families(model).open_router
            &&& model.provider@ == "zai"@ ==> !d.supports_reasoning_effort && d.max_tokens_field
                == "max_tokens"@ && !d.supports_store
            &&& model.provider@ == "together"@ ==> !d.supports_reasoning_effort
                && !d.supports_strict_mode && !d.supports_long_cache_retention
                && d.max_tokens_field == "max_tokens"@
            &&& model.provider@ == "moonshotai"@ ==> !d.supports_reasoning_effort
                && !d.supports_strict_mode && d.max_tokens_field == "max_tokens"@
            &&& model.provider@ == "nvidia"@ ==> !d.supports_strict_mode && !d.supports_store
            &&& model.provider@ == "openrouter"@ ==> d.session_affinity_format == "openrouter"@
            &&& model.provider@ == "openrouter"@ && "anthropic/"@.is_prefix_of(model.id@)
                ==> d.cache_control_format == Some("anthropic"@) && d.supports_developer_role
            &&& model.provider@ != "openrouter"@ ==> d.cache_control_format is None
            &&& model.provider@ == "cerebras"@ || model.provider@ == "opencode"@
                ==> !d.supports_store
        }),
{
}

/// A provider of none of the known families is taken for a plain one.
pub proof fn law_other_providers_are_plain(model: Model)
    requires
        !families(model).non_standard,
        !families(model).open_router,
        !families(model).deep_seek,
    ensures
        ({
            let d = detected(model);
            &&& d.supports_store && d.supports_developer_role && d.supports_reasoning_effort
                && d.supports_strict_mode && d.supports_long_cache_retention
            &&& d.max_tokens_field == "max_completion_tokens"@
            &&& d.thinking_format == "openai"@ && d.session_affinity_format == "openai"@
            &&& !d.requires_reasoning_content_on_assistant_messages
        }),
{
}

/// What is stated of a Responses model wins over the defaults.
pub proof fn law_stated_responses_compat_wins(model: Model)
    ensures
        ({
            let r = crate::api::openai_responses::resolved(model);
            &&& model.compat is None ==> r.supports_developer_role
                && r.supports_long_cache_retention && !r.supports_strict_mode
                && !r.supports_openai_grammar_tools && !r.supports_additional_tools
                && !r.supports_tool_search && !r.supports_explicit_prompt_cache_mode
            &&& model.compat matches Some(ModelCompat::OpenAiResponses(c)) ==> {
                &&& c.supports_developer_role is Some ==> r.supports_developer_role
                    == c.supports_developer_role->0
                &&& c.supports_developer_role is None ==> r.supports_developer_role
                &&& c.supports_long_cache_retention is Some ==> r.supports_long_cache_retention
                    == c.supports_long_cache_retention->0
                &&& c.supports_strict_mode is Some ==> r.supports_strict_mode
                    == c.supports_strict_mode->0
                &&& c.supports_strict_mode is None ==> !r.supports_strict_mode
                &&& c.supports_openai_grammar_tools is Some ==> r.supports_openai_grammar_tools
                    == c.supports_openai_grammar_tools->0
                &&& c.supports_additional_tools is Some ==> r.supports_additional_tools
                    == c.supports_additional_tools->0
                &&& c.supports_tool_search is Some ==> r.supports_tool_search
                    == c.supports_tool_search->0
                &&& c.supports_explicit_prompt_cache_mode is Some
                    ==> r.supports_explicit_prompt_cache_mode
                    == c.supports_explicit_prompt_cache_mode->0
                &&& c.session_affinity_format is Some ==> r.session_affinity_format
                    == c.session_affinity_format->0@
            }
            &&& model.compat is None && model.provider@ == "openrouter"@
                ==> r.session_affinity_format == "openrouter"@
        }),
{
}

/// What is stated of a Messages model wins over the defaults.
pub proof fn law_stated_messages_compat_wins(model: Model)
    ensures
        ({
            let r = crate::api::anthropic_messages::compat::compat_of(model);
            &&& model.compat is None ==> r.supports_eager_tool_input_streaming
                && r.supports_long_cache_retention && !r.send_session_affinity_headers
                && r.supports_cache_control_on_tools && r.supports_temperature
                && !r.allow_empty_signature && !r.supports_strict_tools
            &&& model.compat matches Some(ModelCompat::AnthropicMessages(c)) ==> {
                &&& c.supports_eager_tool_input_streaming is Some
                    ==> r.supports_eager_tool_input_streaming
                    == c.supports_eager_tool_input_streaming->0
                &&& c.supports_long_cache_retention is Some ==> r.supports_long_cache_retention
                    == c.supports_long_cache_retention->0
                &&& c.send_session_affinity_headers is Some ==> r.send_session_affinity_headers
                    == c.send_session_affinity_headers->0
                &&& c.supports_cache_control_on_tools is Some ==> r.supports_cache_control_on_tools
                    == c.supports_cache_control_on_tools->0
                &&& c.supports_temperature is Some ==> r.supports_temperature
                    == c.supports_temperature->0
                &&& c.allow_empty_signature is Some ==> r.allow_empty_signature
                    == c.allow_empty_signature->0
                &&& c.supports_strict_tools is Some ==> r.supports_strict_tools
                    == c.supports_strict_tools->0
                &&& c.supports_tool_references is Some ==> r.supports_tool_references
                    == c.supports_tool_references->0
            }
        }),
{
}

} // verus!
