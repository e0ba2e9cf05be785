//! The Chat Completions interface of Mistral.
pub mod events;
pub mod ids;
pub mod messages;
pub mod request;
pub mod stream;
