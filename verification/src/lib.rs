//! Adapters between one conversation model and the wire formats of several
//! language-model providers.
use vstd::prelude::*;

pub mod api;
pub mod hash;
pub mod json;
pub mod laws;
pub mod number;
pub mod pattern;
pub mod spelling;
pub mod text;
pub mod types;

verus! {

} // verus!
