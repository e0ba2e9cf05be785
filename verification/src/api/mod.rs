//! One adapter for each provider interface, and the choice between them.
use vstd::prelude::*;
use crate::text::str_eq;
use crate::types::Model;

pub mod anthropic_messages;
pub mod azure_openai_responses;
pub mod blocks;
pub mod constrained_sampling;
pub mod finish;
pub mod github_copilot_headers;
pub mod google_generative_ai;
pub mod google_shared;
pub mod google_vertex;
pub mod headers;
pub mod mistral_conversations;
pub mod openai_codex_responses;
pub mod openai_completions;
pub mod openai_responses;
pub mod openai_responses_shared;
pub mod openai_stream;
pub mod openrouter_images;

verus! {

/// The adapter that serves a model.
#[derive(Clone, Copy, Debug, PartialEq, Eq, Structural)]
pub enum Adapter {
    OpenAiResponses,
    OpenAiCompletions,
    OpenAiCodex,
    Anthropic,
    GoogleGenerativeAi,
    AzureOpenAiResponses,
}

/// The adapter for the name of an interface, where there is one.
pub open spec fn adapter_of(api: Seq<char>) -> Option<Adapter> {
    if api == "openai"@ {
        Some(Adapter::OpenAiResponses)
    } else if api == "openai-completions"@ {
        Some(Adapter::OpenAiCompletions)
    } else if api == "openai-codex"@ {
        Some(Adapter::OpenAiCodex)
    } else if api == "anthropic"@ {
        Some(Adapter::Anthropic)
    } else if api == "google"@ {
        Some(Adapter::GoogleGenerativeAi)
    } else if api == "azure-openai-responses"@ {
        Some(Adapter::AzureOpenAiResponses)
    } else {
        None
    }
}

/// The adapter that serves a model, where there is one.
pub fn find_adapter(model: &Model) -> (r: Option<Adapter>)
    ensures
        r == adapter_of(model.api@),
{
    let api = model.api.as_str();
    if str_eq(api, "openai") {
        Some(Adapter::OpenAiResponses)
    } else if str_eq(api, "openai-completions") {
        Some(Adapter::OpenAiCompletions)
    } else if str_eq(api, "openai-codex") {
        Some(Adapter::OpenAiCodex)
    } else if str_eq(api, "anthropic") {
        Some(Adapter::Anthropic)
    } else if str_eq(api, "google") {
        Some(Adapter::GoogleGenerativeAi)
    } else if str_eq(api, "azure-openai-responses") {
        Some(Adapter::AzureOpenAiResponses)
    } else {
        None
    }
}

/// Chooses the adapter that streams a simple request to a model. The interface
/// of the model has to be a supported one.
pub fn dispatch_stream_simple(model: &Model) -> (r: Adapter)
    requires
        adapter_of(model.api@) is Some,
    ensures
        Some(r) == adapter_of(model.api@),
{
    match find_adapter(model) {
        Some(adapter) => adapter,
        None => Adapter::OpenAiResponses,
    }
}

} // verus!
