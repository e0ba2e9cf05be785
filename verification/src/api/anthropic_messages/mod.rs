//! The Messages interface of Anthropic.
pub mod compat;
pub mod events;
pub mod messages;
pub mod request;
pub mod sse;
pub mod stream;
