//! Framing of outbound messages as JSON text, character for character.
//! The spec functions define the wire encoding; the exec functions are
//! proved to produce exactly it.
use vstd::prelude::*;

use crate::digits::dec_digits;
use crate::digits::format_u128;
use crate::messages::JoinChannelPayload;
use crate::messages::LeaveChannelPayload;
use crate::messages::OutboundMessage;
use crate::messages::SendMessagePayload;

verus! {

/// The character for a hexadecimal digit value.
pub open spec fn hex_char(d: int) -> char {
    if d == 0 {
        '0'
    } else if d == 1 {
        '1'
    } else if d == 2 {
        '2'
    } else if d == 3 {
        '3'
    } else if d == 4 {
        '4'
    } else if d == 5 {
        '5'
    } else if d == 6 {
        '6'
    } else if d == 7 {
        '7'
    } else if d == 8 {
        '8'
    } else if d == 9 {
        '9'
    } else if d == 10 {
        'a'
    } else if d == 11 {
        'b'
    } else if d == 12 {
        'c'
    } else if d == 13 {
        'd'
    } else if d == 14 {
        'e'
    } else {
        'f'
    }
}

/// How one character appears inside a JSON string literal: quotes and
/// backslashes are escaped, control characters take their short escape or
/// the generic `\u00XX` form, and every other character stands for itself.
pub open spec fn escape_char(c: char) -> Seq<char> {
    if c == '"' {
        seq!['\\', '"']
    } else if c == '\\' {
        seq!['\\', '\\']
    } else if c == '\n' {
        seq!['\\', 'n']
    } else if c == '\r' {
        seq!['\\', 'r']
    } else if c == '\t' {
        seq!['\\', 't']
    } else if (c as u32) < 0x20 {
        seq!['\\', 'u', '0', '0', hex_char(c as u32 as int / 16), hex_char(c as u32 as int % 16)]
    } else {
        seq![c]
    }
}

/// A whole character sequence escaped for a JSON string literal.
pub open spec fn escape(s: Seq<char>) -> Seq<char>
    decreases s.len(),
{
    if s.len() == 0 {
        Seq::<char>::empty()
    } else {
        escape(s.drop_last()) + escape_char(s.last())
    }
}

/// A JSON string literal: the escaped characters between double quotes.
pub open spec fn quoted(s: Seq<char>) -> Seq<char> {
    seq!['"'] + escape(s) + seq!['"']
}

/// An optional user id field: the number, or JSON `null`.
pub open spec fn opt_user_text(u: Option<u32>) -> Seq<char> {
    match u {
        Option::Some(x) => dec_digits(x as int),
        Option::None => "null"@,
    }
}

/// The JSON encoding of a join request.
pub open spec fn join_text(p: JoinChannelPayload) -> Seq<char> {
    "{\"type\":\"joinChannel\",\"payload\":{\"channelId\":"@ + dec_digits(p.channel_id as int)
        + ",\"totalChannelCount\":"@ + dec_digits(p.total_channel_count as int) + ",\"sentAt\":"@
        + quoted(p.sent_at@) + "}}"@
}

/// The JSON encoding of a broadcast message.
pub open spec fn send_text(p: SendMessagePayload) -> Seq<char> {
    "{\"type\":\"sendMessage\",\"payload\":{\"channelId\":"@ + dec_digits(p.channel_id as int)
        + ",\"messageContent\":"@ + quoted(p.message_content@) + ",\"userId\":"@ + dec_digits(
        p.user_id as int,
    ) + ",\"sentAt\":"@ + quoted(p.sent_at@) + "}}"@
}

/// The JSON encoding of a leave request.
pub open spec fn leave_text(p: LeaveChannelPayload) -> Seq<char> {
    "{\"type\":\"leaveChannel\",\"payload\":{\"channelId\":"@ + dec_digits(p.channel_id as int)
        + ",\"userId\":"@ + opt_user_text(p.user_id) + ",\"sentAt\":"@ + quoted(p.sent_at@) + "}}"@
}

/// The JSON encoding of any outbound message.
pub open spec fn outbound_text(m: OutboundMessage) -> Seq<char> {
    match m {
        OutboundMessage::JoinChannel(p) => join_text(p),
        OutboundMessage::SendMessage(p) => send_text(p),
        OutboundMessage::LeaveChannel(p) => leave_text(p),
    }
}

/// The one-character string for a hexadecimal digit value.
fn hex_str(d: u8) -> (r: &'static str)
    requires
        d < 16,
    ensures
        r@ == seq![hex_char(d as int)],
{
    proof {
        reveal_strlit("0");
        reveal_strlit("1");
        reveal_strlit("2");
        reveal_strlit("3");
        reveal_strlit("4");
        reveal_strlit("5");
        reveal_strlit("6");
        reveal_strlit("7");
        reveal_strlit("8");
        reveal_strlit("9");
        reveal_strlit("a");
        reveal_strlit("b");
        reveal_strlit("c");
        reveal_strlit("d");
        reveal_strlit("e");
        reveal_strlit("f");
    }
    let r: &'static str = if d == 0 {
        "0"
    } else if d == 1 {
        "1"
    } else if d == 2 {
        "2"
    } else if d == 3 {
        "3"
    } else if d == 4 {
        "4"
    } else if d == 5 {
        "5"
    } else if d == 6 {
        "6"
    } else if d == 7 {
        "7"
    } else if d == 8 {
        "8"
    } else if d == 9 {
        "9"
    } else if d == 10 {
        "a"
    } else if d == 11 {
        "b"
    } else if d == 12 {
        "c"
    } else if d == 13 {
        "d"
    } else if d == 14 {
        "e"
    } else {
        "f"
    };
    proof {
        assert(r@ =~= seq![hex_char(d as int)]);
    }
    r
}

/// Append the escaped form of one character.
fn append_escaped_char(out: &mut String, s: &str, i: usize)
    requires
        i < s@.len(),
        s@.len() <= usize::MAX,
    ensures
        final(out)@ == old(out)@ + escape_char(s@[i as int]),
{
    let c = s.get_char(i);
    if c == '"' {
        out.append("\\\"");
        proof {
            reveal_strlit("\\\"");
            assert("\\\""@ =~= escape_char(c));
        }
    } else if c == '\\' {
        out.append("\\\\");
        proof {
            reveal_strlit("\\\\");
            assert("\\\\"@ =~= escape_char(c));
        }
    } else if c == '\n' {
        out.append("\\n");
        proof {
            reveal_strlit("\\n");
            assert("\\n"@ =~= escape_char(c));
        }
    } else if c == '\r' {
        out.append("\\r");
        proof {
            reveal_strlit("\\r");
            assert("\\r"@ =~= escape_char(c));
        }
    } else if c == '\t' {
        out.append("\\t");
        proof {
            reveal_strlit("\\t");
            assert("\\t"@ =~= escape_char(c));
        }
    } else if (c as u32) < 0x20 {
        let code: u32 = c as u32;
        out.append("\\u00");
        out.append(hex_str((code / 16) as u8));
        out.append(hex_str((code % 16) as u8));
        proof {
            reveal_strlit("\\u00");
            assert("\\u00"@ + seq![hex_char(code as int / 16)] + seq![hex_char(code as int % 16)]
                =~= escape_char(c));
        }
    } else {
        let piece = s.substring_char(i, i + 1);
        out.append(piece);
        proof {
            assert(piece@ =~= escape_char(c));
        }
    }
}

/// Escape a whole string for use inside a JSON string literal.
fn escape_str(s: &str) -> (r: String)
    ensures
        r@ == escape(s@),
{
    let len = s.unicode_len();
    let mut out = String::new();
    let mut i: usize = 0;
    while i < len
        invariant
            0 <= i <= len,
            len == s@.len(),
            out@ == escape(s@.take(i as int)),
        decreases len - i,
    {
        append_escaped_char(&mut out, s, i);
        proof {
            assert(s@.take(i + 1).drop_last() =~= s@.take(i as int));
            assert(s@.take(i + 1).last() == s@[i as int]);
        }
        i += 1;
    }
    proof {
        assert(s@.take(len as int) =~= s@);
    }
    out
}

/// Render a string as a JSON string literal.
fn json_string(s: &str) -> (r: String)
    ensures
        r@ == quoted(s@),
{
    let mut out = "\"".to_owned();
    let inner = escape_str(s);
    out.append(inner.as_str());
    out.append("\"");
    proof {
        reveal_strlit("\"");
        assert("\""@ =~= seq!['"']);
        assert(seq!['"'] + escape(s@) + seq!['"'] =~= "\""@ + escape(s@) + "\""@);
    }
    out
}

/// Encode an outbound message as the JSON text that goes on the wire.
pub fn encode_outbound(m: &OutboundMessage) -> (r: String)
    ensures
        r@ == outbound_text(*m),
{
    match m {
        OutboundMessage::JoinChannel(p) => {
            let mut out = "{\"type\":\"joinChannel\",\"payload\":{\"channelId\":".to_owned();
            out.append(format_u128(p.channel_id as u128).as_str());
            out.append(",\"totalChannelCount\":");
            out.append(format_u128(p.total_channel_count as u128).as_str());
            out.append(",\"sentAt\":");
            out.append(json_string(p.sent_at.as_str()).as_str());
            out.append("}}");
            out
        },
        OutboundMessage::SendMessage(p) => {
            let mut out = "{\"type\":\"sendMessage\",\"payload\":{\"channelId\":".to_owned();
            out.append(format_u128(p.channel_id as u128).as_str());
            out.append(",\"messageContent\":");
            out.append(json_string(p.message_content.as_str()).as_str());
            out.append(",\"userId\":");
            out.append(format_u128(p.user_id as u128).as_str());
            out.append(",\"sentAt\":");
            out.append(json_string(p.sent_at.as_str()).as_str());
            out.append("}}");
            out
        },
        OutboundMessage::LeaveChannel(p) => {
            let mut out = "{\"type\":\"leaveChannel\",\"payload\":{\"channelId\":".to_owned();
            out.append(format_u128(p.channel_id as u128).as_str());
            out.append(",\"userId\":");
            match &p.user_id {
                Option::Some(x) => {
                    out.append(format_u128(*x as u128).as_str());
                },
                Option::None => {
                    out.append("null");
                },
            }
            out.append(",\"sentAt\":");
            out.append(json_string(p.sent_at.as_str()).as_str());
            out.append("}}");
            out
        },
    }
}

} // verus!
