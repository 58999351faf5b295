//! Steady-state outbound traffic: one broadcast message into every
//! joined channel, each carrying this client's identity, the fixed
//! content, and its own fresh timestamp capture. The current flow sends
//! exactly one message per channel.
use vstd::prelude::*;

use crate::digits::dec_digits;
use crate::digits::format_u128;
use crate::digits::lemma_dec_digits_injective;
use crate::messages::sent_at_view;
use crate::messages::OutboundMessage;
use crate::messages::SendMessagePayload;
use crate::CHANNEL_COUNT;

verus! {

/// The fixed content of every broadcast message.
pub open spec fn broadcast_content() -> Seq<char> {
    "hello world"@
}

/// Build one broadcast message for one channel with a given timestamp
/// capture.
pub fn make_send_message(user_id: u32, channel_id: u32, stamp: u128) -> (r: OutboundMessage)
    ensures
        (r matches OutboundMessage::SendMessage(p) && p.channel_id == channel_id && p.user_id
            == user_id && p.message_content@ == broadcast_content() && p.sent_at@ == dec_digits(
            stamp as int,
        )),
{
    OutboundMessage::SendMessage(
        SendMessagePayload {
            channel_id,
            message_content: "hello world".to_owned(),
            user_id,
            sent_at: format_u128(stamp),
        },
    )
}

/// Build the one-shot broadcast of a client: exactly one message per
/// channel, each tagged with the client's identity and its own
/// timestamp capture.
pub fn broadcast_messages(user_id: u32, stamps: &Vec<u128>) -> (r: Vec<OutboundMessage>)
    requires
        stamps@.len() == CHANNEL_COUNT,
    ensures
        r@.len() == CHANNEL_COUNT,
        forall|i: int|
            0 <= i < CHANNEL_COUNT ==> (#[trigger] r@[i] matches OutboundMessage::SendMessage(p)
                && p.channel_id == i && p.user_id == user_id && p.message_content@
                == broadcast_content() && p.sent_at@ == dec_digits(stamps@[i] as int)),
{
    let mut r: Vec<OutboundMessage> = Vec::new();
    let mut c: u32 = 0;
    while c < CHANNEL_COUNT
        invariant
            0 <= c <= CHANNEL_COUNT,
            stamps@.len() == CHANNEL_COUNT,
            r@.len() == c,
            forall|i: int|
                0 <= i < c ==> (#[trigger] r@[i] matches OutboundMessage::SendMessage(p)
                    && p.channel_id == i && p.user_id == user_id && p.message_content@
                    == broadcast_content() && p.sent_at@ == dec_digits(stamps@[i] as int)),
        decreases CHANNEL_COUNT - c,
    {
        let m = make_send_message(user_id, c, stamps[c as usize]);
        r.push(m);
        c += 1;
    }
    r
}

/// Messages stamped from pairwise distinct captures carry pairwise
/// distinct `sentAt` fields: with fresh captures, each channel's
/// broadcast stamp differs from every other capture, the join phase's
/// included.
pub proof fn lemma_fresh_stamps_distinct_sent_at(stamps: Seq<u128>, msgs: Seq<OutboundMessage>)
    requires
        msgs.len() == stamps.len(),
        forall|i: int|
            0 <= i < msgs.len() ==> sent_at_view(#[trigger] msgs[i]) == dec_digits(
                stamps[i] as int,
            ),
        forall|i: int, j: int| 0 <= i < j < stamps.len() ==> stamps[i] != stamps[j],
    ensures
        forall|i: int, j: int|
            0 <= i < j < msgs.len() ==> sent_at_view(#[trigger] msgs[i]) != sent_at_view(
                #[trigger] msgs[j],
            ),
{
    assert forall|i: int, j: int|
        0 <= i < j < msgs.len() implies sent_at_view(#[trigger] msgs[i]) != sent_at_view(
        #[trigger] msgs[j],
    ) by {
        if sent_at_view(msgs[i]) == sent_at_view(msgs[j]) {
            lemma_dec_digits_injective(stamps[i] as int, stamps[j] as int);
        }
    }
}

} // verus!
