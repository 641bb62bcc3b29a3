//! Cast Streaming protocol pieces shared by the streaming sessions.

pub mod crypto;
