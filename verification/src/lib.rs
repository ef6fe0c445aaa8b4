//! A gateway that fronts language models as chat/completions: the conversion to
//! and from the Responses API, the reading of event streams, and the decisions
//! around a llama.cpp router.

pub mod converter;
pub mod json;
pub mod laws;
pub mod llamacpp;
pub mod request;
pub mod response;
pub mod sse;
pub mod stream;
pub mod text;
