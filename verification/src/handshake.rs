//! The join handshake a client drives before entering steady state: it
//! emits one join request per channel, in ascending channel order, then
//! consumes inbound messages until every channel is confirmed. The service
//! must answer with join confirmations only, all carrying one identity.
use vstd::prelude::*;

use crate::digits::dec_digits;
use crate::digits::format_u128;
use crate::messages::InboundMessage;
use crate::messages::JoinChannelPayload;
use crate::messages::OutboundMessage;
use crate::CHANNEL_COUNT;

verus! {

/// Why a handshake failed. Every variant is fatal to the whole run.
#[derive(Debug, PartialEq, Eq, Structural)]
pub enum HandshakeError {
    /// A confirmation carried an identity differing from an earlier one.
    IdentityChanged,
    /// More confirmations arrived than channels were joined.
    JoinOvershoot,
    /// A chat message arrived before the handshake was complete.
    ChatDuringHandshake,
    /// The inbound stream ended before every channel was confirmed.
    StreamEnded,
}

/// Handshake progress: how many confirmations arrived, and the identity
/// they carried.
#[derive(Debug, Clone, Copy)]
pub struct Handshake {
    pub joined: u32,
    pub identity: Option<u32>,
}

impl Handshake {
    /// A handshake state is well formed when it never counts past the
    /// channel total and knows an identity exactly once something was
    /// confirmed.
    pub open spec fn wf(self) -> bool {
        &&& self.joined <= CHANNEL_COUNT
        &&& (self.identity is Some <==> self.joined > 0)
    }

    /// The handshake is complete once every channel is confirmed.
    pub open spec fn complete(self) -> bool {
        self.joined == CHANNEL_COUNT
    }

    /// The state before any confirmation arrived.
    pub fn new() -> (r: Self)
        ensures
            r.wf(),
            r.joined == 0,
            r.identity is None,
    {
        Handshake { joined: 0, identity: None }
    }

    /// Feed one inbound message to the handshake. `Ok(true)` means the
    /// handshake just completed; on an error the state is unchanged.
    pub fn step(&mut self, msg: &InboundMessage) -> (r: Result<bool, HandshakeError>)
        requires
            old(self).wf(),
        ensures
            final(self).wf(),
            match r {
                Ok(done) => spec_step(*old(self), *msg) == Ok::<Handshake, HandshakeError>(
                    *final(self),
                ) && done == final(self).complete(),
                Err(e) => spec_step(*old(self), *msg) == Err::<Handshake, HandshakeError>(e)
                    && *final(self) == *old(self),
            },
    {
        match msg {
            InboundMessage::Message(_) => Err(HandshakeError::ChatDuringHandshake),
            InboundMessage::JoinChannelSuccess(p) => {
                match self.identity {
                    Some(id) => {
                        if id != p.user_id {
                            return Err(HandshakeError::IdentityChanged);
                        }
                    },
                    None => {},
                }
                if self.joined >= CHANNEL_COUNT {
                    return Err(HandshakeError::JoinOvershoot);
                }
                self.identity = Some(p.user_id);
                self.joined = self.joined + 1;
                Ok(self.joined == CHANNEL_COUNT)
            },
        }
    }
}

/// One step of the handshake, as a function of state and inbound message:
/// a chat message is a protocol violation, a confirmation must repeat the
/// identity already learned and may not overshoot the channel total.
pub open spec fn spec_step(s: Handshake, msg: InboundMessage) -> Result<Handshake, HandshakeError> {
    match msg {
        InboundMessage::Message(_) => Err(HandshakeError::ChatDuringHandshake),
        InboundMessage::JoinChannelSuccess(p) => {
            if s.identity is Some && s.identity.unwrap() != p.user_id {
                Err(HandshakeError::IdentityChanged)
            } else if s.joined >= CHANNEL_COUNT {
                Err(HandshakeError::JoinOvershoot)
            } else {
                Ok(Handshake { joined: (s.joined + 1) as u32, identity: Some(p.user_id) })
            }
        },
    }
}

/// Run the handshake from a given state over a stream of inbound
/// messages, stopping at completion, at the first violation, or when the
/// stream ends short.
pub open spec fn spec_run_from(s: Handshake, msgs: Seq<InboundMessage>) -> Result<
    u32,
    HandshakeError,
>
    decreases msgs.len(),
{
    if s.complete() {
        Ok(s.identity.unwrap())
    } else if msgs.len() == 0 {
        Err(HandshakeError::StreamEnded)
    } else {
        match spec_step(s, msgs[0]) {
            Err(e) => Err(e),
            Ok(s2) => spec_run_from(s2, msgs.drop_first()),
        }
    }
}

/// The outcome of a whole handshake over a stream of inbound messages.
pub open spec fn handshake_outcome(msgs: Seq<InboundMessage>) -> Result<u32, HandshakeError> {
    spec_run_from(Handshake { joined: 0, identity: None }, msgs)
}

/// The identity carried by a join confirmation.
pub open spec fn join_uid(m: InboundMessage) -> u32
    recommends
        m is JoinChannelSuccess,
{
    match m {
        InboundMessage::JoinChannelSuccess(p) => p.user_id,
        InboundMessage::Message(p) => p.owner_id,
    }
}

/// Consume inbound messages until the handshake completes, returning the
/// identity the service assigned, or the first violation, or an error if
/// the stream ends short of the channel total.
pub fn run_handshake(msgs: &Vec<InboundMessage>) -> (r: Result<u32, HandshakeError>)
    ensures
        r == handshake_outcome(msgs@),
{
    let mut st = Handshake::new();
    let mut i: usize = 0;
    proof {
        assert(msgs@.skip(0) =~= msgs@);
    }
    while i < msgs.len()
        invariant
            0 <= i <= msgs@.len(),
            st.wf(),
            !st.complete(),
            handshake_outcome(msgs@) == spec_run_from(st, msgs@.skip(i as int)),
        decreases msgs@.len() - i,
    {
        proof {
            assert(msgs@.skip(i as int)[0] == msgs@[i as int]);
            assert(msgs@.skip(i as int).drop_first() =~= msgs@.skip(i + 1));
        }
        match st.step(&msgs[i]) {
            Err(e) => {
                return Err(e);
            },
            Ok(done) => {
                if done {
                    proof {
                        assert(spec_run_from(st, msgs@.skip(i + 1)) == Ok::<u32, HandshakeError>(
                            st.identity.unwrap(),
                        ));
                    }
                    return Ok(st.identity.unwrap());
                }
            },
        }
        i += 1;
    }
    proof {
        assert(msgs@.skip(msgs@.len() as int) =~= Seq::<InboundMessage>::empty());
    }
    Err(HandshakeError::StreamEnded)
}

/// The identity a run from state `s` is owed: the one already learned,
/// else the one the first confirmation carries.
pub open spec fn expected_identity(s: Handshake, msgs: Seq<InboundMessage>) -> u32 {
    if s.identity is Some {
        s.identity.unwrap()
    } else {
        join_uid(msgs[0])
    }
}

/// What a run from state `s` still demands of the stream: enough
/// messages to confirm the remaining channels, all of them join
/// confirmations, all carrying the one expected identity.
pub open spec fn accepts_from(s: Handshake, msgs: Seq<InboundMessage>) -> bool {
    let need = CHANNEL_COUNT - s.joined;
    &&& msgs.len() >= need
    &&& (forall|j: int| 0 <= j < need ==> msgs[j] is JoinChannelSuccess)
    &&& (forall|j: int| 0 <= j < need ==> join_uid(msgs[j]) == expected_identity(s, msgs))
}

proof fn lemma_run_characterisation(s: Handshake, msgs: Seq<InboundMessage>)
    requires
        s.wf(),
        !s.complete(),
    ensures
        (spec_run_from(s, msgs) is Ok) <==> accepts_from(s, msgs),
        (spec_run_from(s, msgs) is Ok) ==> spec_run_from(s, msgs) == Ok::<u32, HandshakeError>(
            expected_identity(s, msgs),
        ),
    decreases msgs.len(),
{
    let need = CHANNEL_COUNT - s.joined;
    if msgs.len() == 0 {
        assert(!accepts_from(s, msgs));
    } else {
        match msgs[0] {
            InboundMessage::Message(_) => {
                assert(!accepts_from(s, msgs));
            },
            InboundMessage::JoinChannelSuccess(p) => {
                if s.identity is Some && s.identity.unwrap() != p.user_id {
                    assert(!accepts_from(s, msgs));
                } else {
                    let s2 = Handshake { joined: (s.joined + 1) as u32, identity: Some(p.user_id) };
                    assert(spec_step(s, msgs[0]) == Ok::<Handshake, HandshakeError>(s2));
                    let rest = msgs.drop_first();
                    if s2.complete() {
                        assert(spec_run_from(s2, rest) == Ok::<u32, HandshakeError>(p.user_id));
                        assert(spec_run_from(s, msgs) == spec_run_from(s2, rest));
                        assert(need == 1);
                        assert(accepts_from(s, msgs)) by {
                            assert(msgs[0] is JoinChannelSuccess);
                            assert(join_uid(msgs[0]) == p.user_id);
                            assert(expected_identity(s, msgs) == p.user_id);
                        }
                    } else {
                        lemma_run_characterisation(s2, rest);
                        let need2 = CHANNEL_COUNT - s2.joined;
                        assert(expected_identity(s, msgs) == p.user_id);
                        assert(accepts_from(s, msgs) <==> accepts_from(s2, rest)) by {
                            if accepts_from(s, msgs) {
                                assert(rest.len() >= need2);
                                assert(forall|j: int|
                                    0 <= j < need2 ==> #[trigger] rest[j] == msgs[j + 1]);
                                assert(forall|j: int| 0 <= j < need2 ==> rest[j]
                                    is JoinChannelSuccess);
                                assert(forall|j: int|
                                    0 <= j < need2 ==> join_uid(#[trigger] rest[j])
                                        == expected_identity(s2, rest));
                            }
                            if accepts_from(s2, rest) {
                                assert(expected_identity(s2, rest) == p.user_id);
                                assert(msgs.len() >= need);
                                assert(forall|j: int|
                                    1 <= j < need ==> #[trigger] msgs[j] == rest[j - 1]);
                                assert(forall|j: int| 0 <= j < need ==> msgs[j]
                                    is JoinChannelSuccess);
                                assert(forall|j: int|
                                    0 <= j < need ==> join_uid(#[trigger] msgs[j])
                                        == expected_identity(s, msgs));
                            }
                        }
                    }
                }
            },
        }
    }
}

/// A handshake completes exactly when the stream begins with one join
/// confirmation per channel, all carrying one identical identity; the
/// identity returned is the one those confirmations carry. Anything else
/// — a chat message among them, a differing identity, or a stream that
/// ends short — fails the handshake.
pub proof fn lemma_handshake_completes_iff(msgs: Seq<InboundMessage>)
    ensures
        (handshake_outcome(msgs) is Ok) <==> (msgs.len() >= CHANNEL_COUNT && (forall|j: int|
            0 <= j < CHANNEL_COUNT ==> (#[trigger] msgs[j]) is JoinChannelSuccess) && (forall|
            j: int,
        |
            0 <= j < CHANNEL_COUNT ==> join_uid(#[trigger] msgs[j]) == join_uid(msgs[0]))),
        (handshake_outcome(msgs) is Ok) ==> handshake_outcome(msgs) == Ok::<u32, HandshakeError>(
            join_uid(msgs[0]),
        ),
{
    let s = Handshake { joined: 0, identity: None };
    lemma_run_characterisation(s, msgs);
}

/// Build one join request with a given timestamp capture.
pub fn make_join_message(channel_id: u32, stamp: u128) -> (r: OutboundMessage)
    ensures
        (r matches OutboundMessage::JoinChannel(p) && p.channel_id == channel_id
            && p.total_channel_count == CHANNEL_COUNT && p.sent_at@ == dec_digits(stamp as int)),
{
    OutboundMessage::JoinChannel(
        JoinChannelPayload {
            channel_id,
            total_channel_count: CHANNEL_COUNT,
            sent_at: format_u128(stamp),
        },
    )
}

/// Build the join requests of one handshake: one per channel, in
/// ascending channel order, each carrying its own timestamp capture and
/// the constant channel total. These are emitted before any reply is
/// read.
pub fn join_messages(stamps: &Vec<u128>) -> (r: Vec<OutboundMessage>)
    requires
        stamps@.len() == CHANNEL_COUNT,
    ensures
        r@.len() == CHANNEL_COUNT,
        forall|i: int|
            0 <= i < CHANNEL_COUNT ==> (#[trigger] r@[i] matches OutboundMessage::JoinChannel(p)
                && p.channel_id == i && p.total_channel_count == CHANNEL_COUNT && p.sent_at@
                == dec_digits(stamps@[i] as int)),
{
    let mut r: Vec<OutboundMessage> = Vec::new();
    let mut c: u32 = 0;
    while c < CHANNEL_COUNT
        invariant
            0 <= c <= CHANNEL_COUNT,
            stamps@.len() == CHANNEL_COUNT,
            r@.len() == c,
            forall|i: int|
                0 <= i < c ==> (#[trigger] r@[i] matches OutboundMessage::JoinChannel(p)
                    && p.channel_id == i && p.total_channel_count == CHANNEL_COUNT && p.sent_at@
                    == dec_digits(stamps@[i] as int)),
        decreases CHANNEL_COUNT - c,
    {
        let m = make_join_message(c, stamps[c as usize]);
        r.push(m);
        c += 1;
    }
    r
}

} // verus!
