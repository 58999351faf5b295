//! Steady-state handling of inbound messages: a client's own echoes give
//! one latency sample each, messages of other clients are noise, and a
//! join confirmation after handshake completion is a protocol violation.
use vstd::prelude::*;

use crate::digits::all_digits;
use crate::digits::dec_digits;
use crate::digits::dec_value;
use crate::digits::format_u128;
use crate::digits::parse_u128;
use crate::messages::InboundMessage;

verus! {

/// Why steady-state receiving failed. Every variant is fatal.
#[derive(Debug, PartialEq, Eq, Structural)]
pub enum ReceiveError {
    /// A join confirmation arrived although the handshake was complete.
    JoinAfterHandshake,
    /// A self-originated echo carried a `sentAt` that is no decimal
    /// number; the sender side of this same client produced it, so this
    /// is a contract violation.
    BadTimestamp,
}

/// Whether a character sequence denotes a timestamp: non-empty, digits
/// only, and small enough to compute with.
pub open spec fn parseable(s: Seq<char>) -> bool {
    s.len() > 0 && all_digits(s) && dec_value(s) <= u128::MAX
}

/// The output line for one latency sample.
pub open spec fn time_line(n: int) -> Seq<char> {
    "TIME,"@ + dec_digits(n)
}

/// Render one latency sample as its output line.
pub fn format_time_line(n: u128) -> (r: String)
    ensures
        r@ == time_line(n as int),
{
    let mut out = "TIME,".to_owned();
    out.append(format_u128(n).as_str());
    out
}

/// Handle one inbound message observed after handshake completion, at
/// instant `now` (microseconds since the Unix epoch). An echo of this
/// client's own message yields its latency line; another client's
/// message yields nothing; a join confirmation is fatal, as is an
/// unparseable timestamp on an own echo. The clock is assumed not to run
/// backwards between stamping and observing.
pub fn observe(my_id: u32, msg: &InboundMessage, now: u128) -> (r: Result<
    Option<String>,
    ReceiveError,
>)
    requires
        match *msg {
            InboundMessage::Message(p) => (p.owner_id == my_id && parseable(p.sent_at@))
                ==> dec_value(p.sent_at@) <= now,
            InboundMessage::JoinChannelSuccess(_) => true,
        },
    ensures
        match msg {
            InboundMessage::JoinChannelSuccess(_) => r == Err::<Option<String>, ReceiveError>(
                ReceiveError::JoinAfterHandshake,
            ),
            InboundMessage::Message(p) => {
                if p.owner_id != my_id {
                    r == Ok::<Option<String>, ReceiveError>(None)
                } else if parseable(p.sent_at@) {
                    r matches Ok(l) && l matches Some(line) && line@ == time_line(
                        now - dec_value(p.sent_at@),
                    )
                } else {
                    r == Err::<Option<String>, ReceiveError>(ReceiveError::BadTimestamp)
                }
            },
        },
{
    match msg {
        InboundMessage::JoinChannelSuccess(_) => Err(ReceiveError::JoinAfterHandshake),
        InboundMessage::Message(p) => {
            if p.owner_id != my_id {
                return Ok(None);
            }
            match parse_u128(p.sent_at.as_str()) {
                None => Err(ReceiveError::BadTimestamp),
                Some(sent) => {
                    let latency = now - sent;
                    Ok(Some(format_time_line(latency)))
                },
            }
        },
    }
}

/// The condition `observe` puts on the clock, for the message observed
/// at position `i` of a stream: an own echo's stamp never lies in the
/// future of the instant it is observed at.
pub open spec fn clock_sane_at(my_id: u32, msgs: Seq<InboundMessage>, nows: Seq<u128>, i: int) -> bool
    recommends
        0 <= i < msgs.len(),
        msgs.len() == nows.len(),
{
    match msgs[i] {
        InboundMessage::Message(p) => (p.owner_id == my_id && parseable(p.sent_at@))
            ==> dec_value(p.sent_at@) <= nows[i],
        InboundMessage::JoinChannelSuccess(_) => true,
    }
}

/// The latency lines a receiver owes for a stream of inbound messages,
/// the i-th observed at instant `nows[i]`: one line per own echo, in
/// stream order, nothing for other clients' messages, and the first
/// violation cuts the run short.
pub open spec fn spec_receive(my_id: u32, msgs: Seq<InboundMessage>, nows: Seq<u128>) -> Result<
    Seq<Seq<char>>,
    ReceiveError,
>
    recommends
        msgs.len() == nows.len(),
    decreases msgs.len(),
{
    if msgs.len() == 0 {
        Ok(Seq::<Seq<char>>::empty())
    } else {
        match msgs[0] {
            InboundMessage::JoinChannelSuccess(_) => Err(ReceiveError::JoinAfterHandshake),
            InboundMessage::Message(p) => {
                if p.owner_id != my_id {
                    spec_receive(my_id, msgs.drop_first(), nows.drop_first())
                } else if !parseable(p.sent_at@) {
                    Err(ReceiveError::BadTimestamp)
                } else {
                    match spec_receive(my_id, msgs.drop_first(), nows.drop_first()) {
                        Err(e) => Err(e),
                        Ok(rest) => Ok(
                            seq![time_line(nows[0] - dec_value(p.sent_at@))] + rest,
                        ),
                    }
                }
            },
        }
    }
}

/// Handle a whole stream of inbound messages observed after handshake
/// completion, the i-th at instant `nows[i]`, collecting the latency
/// lines of this client's own echoes.
pub fn observe_all(my_id: u32, msgs: &Vec<InboundMessage>, nows: &Vec<u128>) -> (r: Result<
    Vec<String>,
    ReceiveError,
>)
    requires
        msgs@.len() == nows@.len(),
        forall|i: int| 0 <= i < msgs@.len() ==> clock_sane_at(my_id, msgs@, nows@, i),
    ensures
        match spec_receive(my_id, msgs@, nows@) {
            Ok(ls) => r matches Ok(v) && v.deep_view() == ls,
            Err(e) => r == Err::<Vec<String>, ReceiveError>(e),
        },
{
    let ghost full = spec_receive(my_id, msgs@, nows@);
    let mut lines: Vec<String> = Vec::new();
    let mut i: usize = 0;
    proof {
        assert(msgs@.skip(0) =~= msgs@);
        assert(nows@.skip(0) =~= nows@);
    }
    while i < msgs.len()
        invariant
            0 <= i <= msgs@.len(),
            msgs@.len() == nows@.len(),
            forall|k: int| 0 <= k < msgs@.len() ==> clock_sane_at(my_id, msgs@, nows@, k),
            full == spec_receive(my_id, msgs@, nows@),
            match spec_receive(my_id, msgs@.skip(i as int), nows@.skip(i as int)) {
                Ok(ls) => full == Ok::<Seq<Seq<char>>, ReceiveError>(lines.deep_view() + ls),
                Err(e) => full == Err::<Seq<Seq<char>>, ReceiveError>(e),
            },
        decreases msgs@.len() - i,
    {
        proof {
            assert(msgs@.skip(i as int)[0] == msgs@[i as int]);
            assert(nows@.skip(i as int)[0] == nows@[i as int]);
            assert(msgs@.skip(i as int).drop_first() =~= msgs@.skip(i + 1));
            assert(nows@.skip(i as int).drop_first() =~= nows@.skip(i + 1));
            assert(clock_sane_at(my_id, msgs@, nows@, i as int));
        }
        match observe(my_id, &msgs[i], nows[i]) {
            Err(e) => {
                return Err(e);
            },
            Ok(None) => {},
            Ok(Some(line)) => {
                let ghost old_dv = lines.deep_view();
                let ghost line_view = line@;
                lines.push(line);
                proof {
                    assert(lines.deep_view() =~= old_dv + seq![line_view]);
                    match spec_receive(my_id, msgs@.skip(i + 1), nows@.skip(i + 1)) {
                        Ok(ls) => {
                            assert(old_dv + (seq![line_view] + ls) =~= (old_dv + seq![line_view])
                                + ls);
                        },
                        Err(_) => {},
                    }
                }
            },
        }
        i += 1;
    }
    proof {
        assert(msgs@.skip(msgs@.len() as int) =~= Seq::<InboundMessage>::empty());
        assert(nows@.skip(nows@.len() as int) =~= Seq::<u128>::empty());
        assert(lines.deep_view() + Seq::<Seq<char>>::empty() =~= lines.deep_view());
    }
    Ok(lines)
}

/// A stream holding only other clients' messages yields no output at
/// all: noise is ignored silently.
pub proof fn lemma_noise_yields_no_output(my_id: u32, msgs: Seq<InboundMessage>, nows: Seq<u128>)
    requires
        msgs.len() == nows.len(),
        forall|i: int|
            0 <= i < msgs.len() ==> (#[trigger] msgs[i] matches InboundMessage::Message(p)
                && p.owner_id != my_id),
    ensures
        spec_receive(my_id, msgs, nows) == Ok::<Seq<Seq<char>>, ReceiveError>(
            Seq::<Seq<char>>::empty(),
        ),
    decreases msgs.len(),
{
    if msgs.len() > 0 {
        assert(msgs[0] matches InboundMessage::Message(p) && p.owner_id != my_id);
        assert(forall|i: int|
            0 <= i < msgs.drop_first().len() ==> #[trigger] msgs.drop_first()[i] == msgs[i + 1]);
        lemma_noise_yields_no_output(my_id, msgs.drop_first(), nows.drop_first());
    }
}

} // verus!
