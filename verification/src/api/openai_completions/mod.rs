//! The Chat Completions interface of OpenAI and of the endpoints that are
//! compatible with it.
pub mod compat;
pub mod messages;
pub mod params;
pub mod request;
pub mod stream;
