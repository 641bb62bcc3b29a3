//! Cast Streaming ("mirroring"): RTP packetization, RTCP feedback, frame
//! encryption and the OFFER/ANSWER messages.

pub mod encoder;
pub mod messages;
pub mod plan;
pub mod rtcp;
pub mod rtp;
pub mod sender;
