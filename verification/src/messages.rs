//! The wire message shapes: what a client sends into the service and what
//! it receives back. The field layout mirrors the camelCase wire protocol;
//! these are data contracts, with the framing itself in the json module.
use vstd::prelude::*;

verus! {

/// Payload of a request to join one channel.
#[derive(Debug)]
pub struct JoinChannelPayload {
    pub channel_id: u32,
    pub total_channel_count: u32,
    /// Microseconds since the Unix epoch, in decimal notation.
    pub sent_at: String,
}

/// Payload of a broadcast into one channel.
#[derive(Debug)]
pub struct SendMessagePayload {
    pub channel_id: u32,
    pub message_content: String,
    pub user_id: u32,
    /// Microseconds since the Unix epoch, in decimal notation.
    pub sent_at: String,
}

/// Payload of a request to leave one channel. The current flow never
/// issues it; the shape is kept for protocol compatibility.
#[derive(Debug)]
pub struct LeaveChannelPayload {
    pub channel_id: u32,
    pub user_id: Option<u32>,
    /// Microseconds since the Unix epoch, in decimal notation.
    pub sent_at: String,
}

/// A message a client sends to the service.
#[derive(Debug)]
pub enum OutboundMessage {
    JoinChannel(JoinChannelPayload),
    SendMessage(SendMessagePayload),
    LeaveChannel(LeaveChannelPayload),
}

/// Payload confirming one successful channel join; carries the identity
/// the service assigned to the joining client.
#[derive(Debug)]
pub struct JoinSuccessPayload {
    pub channel_id: u32,
    pub user_id: u32,
}

/// Payload of a chat message relayed by the service. `owner_id` names the
/// original sender; a receiver recognises its own echoes by it.
#[derive(Debug)]
pub struct MessagePayload {
    pub id: u32,
    pub channel_id: u32,
    pub owner_id: u32,
    pub content: String,
    /// The sender's `sent_at` stamp, relayed unmodified.
    pub sent_at: String,
}

/// A message a client receives from the service.
#[derive(Debug)]
pub enum InboundMessage {
    JoinChannelSuccess(JoinSuccessPayload),
    Message(MessagePayload),
}

/// The timestamp field an outbound message carries, whatever its shape.
pub open spec fn sent_at_view(m: OutboundMessage) -> Seq<char> {
    match m {
        OutboundMessage::JoinChannel(p) => p.sent_at@,
        OutboundMessage::SendMessage(p) => p.sent_at@,
        OutboundMessage::LeaveChannel(p) => p.sent_at@,
    }
}

} // verus!
