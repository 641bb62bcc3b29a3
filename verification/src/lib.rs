//! Verified core of the GNOME Shell Cast daemon: Cast Streaming packet
//! formats, receiver feedback, quality negotiation and encoder selection.

pub mod capture;
pub mod cast;
pub mod discovery;
pub mod http;
pub mod json;
pub mod mirror;
pub mod pipeline;
mod random;
pub mod session;
pub mod streaming;
pub mod text;
pub mod wire;
