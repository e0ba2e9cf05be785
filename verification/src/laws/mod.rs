//! Promises that span the adapters: what reaches the wire of what a
//! conversation says, and what reaches a reply of what a provider streams.
pub mod anthropic_cache;
pub mod anthropic_calls;
pub mod anthropic_events;
pub mod anthropic_messages;
pub mod anthropic_options;
pub mod anthropic_stream;
pub mod azure;
pub mod bodies;
pub mod codex;
pub mod compat;
pub mod completions_calls;
pub mod completions_messages;
pub mod completions_options;
pub mod completions_runs;
pub mod completions_stream;
pub mod endings;
pub mod framing;
pub mod google_messages;
pub mod google_options;
pub mod google_stream;
pub mod headers;
pub mod ids;
pub mod images;
pub mod json_texts;
pub mod mistral;
pub mod mistral_events;
pub mod openai_requests;
pub mod requests;
pub mod responses_blocks;
pub mod responses_events;
pub mod responses_messages;
pub mod responses_stream;
pub mod responses_tools;
pub mod sampling;
pub mod sent;
pub mod streams;
pub mod texts;
pub mod usage;
pub mod wire;
