//! The decisions around a llama.cpp router process: its models, its slots, its
//! sessions and its life cycle.

pub mod api_key;
pub mod error;
pub mod models;
pub mod progress;
pub mod replies;
pub mod router;
pub mod session;
pub mod slots;
