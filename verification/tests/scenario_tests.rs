use chanload::fleet::parse_client_count;
use chanload::fleet::startup_line;
use chanload::fleet::target_address;
use chanload::handshake::run_handshake;
use chanload::messages::InboundMessage;
use chanload::messages::JoinSuccessPayload;
use chanload::messages::MessagePayload;
use chanload::messages::OutboundMessage;
use chanload::receiver::observe;
use chanload::sender::broadcast_messages;
use chanload::CHANNEL_COUNT;

fn confirmation(channel_id: u32, user_id: u32) -> InboundMessage {
    InboundMessage::JoinChannelSuccess(JoinSuccessPayload { channel_id, user_id })
}

/// Echo a broadcast back unmodified, the way a well-behaved service
/// relays it: same owner, same content, same stamp.
fn echo_of(m: &OutboundMessage, id: u32) -> InboundMessage {
    match m {
        OutboundMessage::SendMessage(p) => InboundMessage::Message(MessagePayload {
            id,
            channel_id: p.channel_id,
            owner_id: p.user_id,
            content: p.message_content.clone(),
            sent_at: p.sent_at.clone(),
        }),
        _ => panic!("only broadcasts are echoed in this scenario"),
    }
}

#[test]
fn parse_client_count_defaults_to_one() {
    assert_eq!(parse_client_count(None), Some(1));
}

#[test]
fn parse_client_count_reads_decimal() {
    assert_eq!(parse_client_count(Some("2")), Some(2));
    assert_eq!(parse_client_count(Some("0")), Some(0));
    assert_eq!(parse_client_count(Some("4294967295")), Some(u32::MAX));
}

#[test]
fn parse_client_count_rejects_junk() {
    assert_eq!(parse_client_count(Some("")), None);
    assert_eq!(parse_client_count(Some("two")), None);
    assert_eq!(parse_client_count(Some("4294967296")), None);
}

#[test]
fn target_address_defaults() {
    assert_eq!(target_address(None), "ws://localhost:8080/chat");
    assert_eq!(target_address(Some("ws://example:9/x".to_string())), "ws://example:9/x");
}

#[test]
fn startup_line_is_exact() {
    assert_eq!(startup_line(2, "ws://localhost:8080/chat"), "Connecting 2 clients to ws://localhost:8080/chat");
}

/// Two clients against a well-behaved service: ids 0 and 1, all twenty
/// joins acknowledged per client, every broadcast echoed back unmodified.
/// Each client yields exactly twenty latency lines, all within a local
/// loopback bound.
#[test]
fn two_clients_against_echoing_service() {
    let mut total_lines = 0;
    for id in 0u32..2 {
        let confirmations: Vec<InboundMessage> =
            (0..CHANNEL_COUNT).map(|c| confirmation(c, id)).collect();
        let my_id = run_handshake(&confirmations).expect("handshake must complete");
        assert_eq!(my_id, id);

        let base: u128 = 1_700_000_000_000_000;
        let stamps: Vec<u128> = (0..CHANNEL_COUNT as u128).map(|c| base + c).collect();
        let outbound = broadcast_messages(my_id, &stamps);
        assert_eq!(outbound.len(), CHANNEL_COUNT as usize);

        let mut lines = Vec::new();
        for m in &outbound {
            let echoed = echo_of(m, 1);
            let now = base + CHANNEL_COUNT as u128 + 40;
            match observe(my_id, &echoed, now) {
                Ok(Some(line)) => lines.push(line),
                other => panic!("echo must yield a latency line, got {:?}", other),
            }
        }
        assert_eq!(lines.len(), CHANNEL_COUNT as usize);
        for line in &lines {
            let digits = line.strip_prefix("TIME,").expect("line must carry the TIME tag");
            let n: u128 = digits.parse().expect("latency must be decimal");
            assert!(n < 1_000_000, "latency must stay within a loopback bound");
        }
        total_lines += lines.len();
    }
    assert_eq!(total_lines, 2 * CHANNEL_COUNT as usize);
}

/// A service that slips a chat message in before all twenty joins are
/// acknowledged must make the run fail, never proceed silently.
#[test]
fn chat_before_all_joins_acknowledged_is_fatal() {
    let mut msgs: Vec<InboundMessage> = (0..CHANNEL_COUNT).map(|c| confirmation(c, 0)).collect();
    msgs.insert(10, InboundMessage::Message(MessagePayload {
        id: 0,
        channel_id: 10,
        owner_id: 0,
        content: "hello world".to_string(),
        sent_at: "1".to_string(),
    }));
    assert!(run_handshake(&msgs).is_err());
}
