//! The Responses interface of OpenAI Codex.
pub mod auth;
pub mod events;
pub mod request;
pub mod retry;
