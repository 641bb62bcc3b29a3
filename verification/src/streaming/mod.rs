//! Cast Streaming sessions: capture sizes, quality negotiation and encoders.

pub mod channel;
pub mod encoder;
pub mod ladder;
pub mod openscreen;
pub mod quality;
