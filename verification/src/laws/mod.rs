//! What holds of the conversions as a whole, over several calls or over every
//! input.

pub mod calls;
pub mod chunks;
pub mod conversion;
pub mod events;
pub mod progress;
pub mod requests;
pub mod responses;
pub mod role;
pub mod router;
pub mod stream;
pub mod texts;
pub mod values;
