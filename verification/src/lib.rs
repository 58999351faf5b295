//! Protocol core of a load-generation client for a channel-based messaging
//! service: handshake sequencing, outbound message construction and JSON
//! framing, inbound-message handling with latency sampling, and the small
//! pure parts of the fleet driver.
use vstd::prelude::*;

pub mod digits;
pub mod fleet;
pub mod handshake;
pub mod json;
pub mod messages;
pub mod receiver;
pub mod sender;

verus! {

/// Number of channels every client joins before entering steady state.
pub const CHANNEL_COUNT: u32 = 20;

} // verus!
