use chanload::handshake::join_messages;
use chanload::handshake::run_handshake;
use chanload::handshake::Handshake;
use chanload::handshake::HandshakeError;
use chanload::messages::InboundMessage;
use chanload::messages::JoinSuccessPayload;
use chanload::messages::MessagePayload;
use chanload::messages::OutboundMessage;
use chanload::receiver::observe;
use chanload::receiver::observe_all;
use chanload::receiver::ReceiveError;
use chanload::sender::broadcast_messages;
use chanload::CHANNEL_COUNT;

fn confirmation(channel_id: u32, user_id: u32) -> InboundMessage {
    InboundMessage::JoinChannelSuccess(JoinSuccessPayload { channel_id, user_id })
}

fn chat(owner_id: u32, sent_at: &str) -> InboundMessage {
    InboundMessage::Message(MessagePayload {
        id: 0,
        channel_id: 0,
        owner_id,
        content: "hello world".to_string(),
        sent_at: sent_at.to_string(),
    })
}

#[test]
fn handshake_completes_on_twenty_identical_confirmations() {
    let msgs: Vec<InboundMessage> = (0..CHANNEL_COUNT).map(|c| confirmation(c, 7)).collect();
    assert_eq!(run_handshake(&msgs), Ok(7));
}

#[test]
fn handshake_ignores_confirmation_order() {
    let msgs: Vec<InboundMessage> =
        (0..CHANNEL_COUNT).rev().map(|c| confirmation(c, 3)).collect();
    assert_eq!(run_handshake(&msgs), Ok(3));
}

#[test]
fn handshake_fails_on_short_stream() {
    let msgs: Vec<InboundMessage> = (0..CHANNEL_COUNT - 1).map(|c| confirmation(c, 7)).collect();
    assert_eq!(run_handshake(&msgs), Err(HandshakeError::StreamEnded));
    assert_eq!(run_handshake(&Vec::new()), Err(HandshakeError::StreamEnded));
}

#[test]
fn handshake_fails_on_identity_change() {
    let mut msgs: Vec<InboundMessage> = (0..CHANNEL_COUNT).map(|c| confirmation(c, 7)).collect();
    msgs[4] = confirmation(4, 8);
    assert_eq!(run_handshake(&msgs), Err(HandshakeError::IdentityChanged));
}

#[test]
fn handshake_fails_on_chat_message() {
    let mut msgs: Vec<InboundMessage> = (0..CHANNEL_COUNT).map(|c| confirmation(c, 7)).collect();
    msgs[3] = chat(7, "1");
    assert_eq!(run_handshake(&msgs), Err(HandshakeError::ChatDuringHandshake));
}

#[test]
fn handshake_step_reports_completion_only_at_the_end() {
    let mut st = Handshake::new();
    for c in 0..CHANNEL_COUNT {
        let done = st.step(&confirmation(c, 2)).unwrap();
        assert_eq!(done, c == CHANNEL_COUNT - 1);
    }
    assert_eq!(st.identity, Some(2));
}

#[test]
fn handshake_step_rejects_twenty_first_confirmation() {
    let mut st = Handshake::new();
    for c in 0..CHANNEL_COUNT {
        st.step(&confirmation(c, 2)).unwrap();
    }
    assert_eq!(st.step(&confirmation(0, 2)), Err(HandshakeError::JoinOvershoot));
}

#[test]
fn observe_emits_latency_for_own_echo() {
    let r = observe(7, &chat(7, "100"), 105);
    assert_eq!(r, Ok(Some("TIME,5".to_string())));
    let r = observe(7, &chat(7, "100"), 100);
    assert_eq!(r, Ok(Some("TIME,0".to_string())));
}

#[test]
fn observe_is_silent_for_other_owners() {
    assert_eq!(observe(7, &chat(8, "100"), 105), Ok(None));
}

#[test]
fn observe_rejects_confirmation_after_handshake() {
    assert_eq!(observe(7, &confirmation(0, 7), 105), Err(ReceiveError::JoinAfterHandshake));
}

#[test]
fn observe_rejects_bad_timestamp() {
    assert_eq!(observe(7, &chat(7, "12x"), 105), Err(ReceiveError::BadTimestamp));
    assert_eq!(observe(7, &chat(7, ""), 105), Err(ReceiveError::BadTimestamp));
}

#[test]
fn observe_all_collects_own_echoes_in_order() {
    let msgs = vec![
        chat(7, "100"),
        chat(9, "50"),
        chat(7, "110"),
        chat(8, "not a number"),
        chat(7, "115"),
    ];
    let nows: Vec<u128> = vec![103, 104, 115, 116, 135];
    let lines = observe_all(7, &msgs, &nows).unwrap();
    assert_eq!(lines, vec!["TIME,3".to_string(), "TIME,5".to_string(), "TIME,20".to_string()]);
}

#[test]
fn observe_all_stops_at_first_violation() {
    let msgs = vec![chat(7, "100"), confirmation(0, 7), chat(7, "110")];
    let nows: Vec<u128> = vec![103, 104, 115];
    assert_eq!(observe_all(7, &msgs, &nows), Err(ReceiveError::JoinAfterHandshake));

    let msgs = vec![chat(7, "100"), chat(7, "1x0")];
    let nows: Vec<u128> = vec![103, 104];
    assert_eq!(observe_all(7, &msgs, &nows), Err(ReceiveError::BadTimestamp));
}

#[test]
fn observe_all_yields_nothing_for_pure_noise() {
    let msgs = vec![chat(8, "100"), chat(9, "x"), chat(10, "110")];
    let nows: Vec<u128> = vec![103, 104, 115];
    assert_eq!(observe_all(7, &msgs, &nows), Ok(Vec::new()));
}

#[test]
fn join_messages_cover_channels_in_ascending_order() {
    let stamps: Vec<u128> = (100..100 + CHANNEL_COUNT as u128).collect();
    let msgs = join_messages(&stamps);
    assert_eq!(msgs.len(), CHANNEL_COUNT as usize);
    for (i, m) in msgs.iter().enumerate() {
        match m {
            OutboundMessage::JoinChannel(p) => {
                assert_eq!(p.channel_id, i as u32);
                assert_eq!(p.total_channel_count, CHANNEL_COUNT);
                assert_eq!(p.sent_at, (100 + i as u128).to_string());
            }
            _ => panic!("join phase emitted a non-join message"),
        }
    }
}

#[test]
fn broadcast_sends_one_message_per_channel_with_fresh_stamps() {
    let join_stamps: Vec<u128> = (100..100 + CHANNEL_COUNT as u128).collect();
    let send_stamps: Vec<u128> = (200..200 + CHANNEL_COUNT as u128).collect();
    let msgs = broadcast_messages(5, &send_stamps);
    assert_eq!(msgs.len(), CHANNEL_COUNT as usize);
    let mut seen: Vec<String> = Vec::new();
    for (i, m) in msgs.iter().enumerate() {
        match m {
            OutboundMessage::SendMessage(p) => {
                assert_eq!(p.channel_id, i as u32);
                assert_eq!(p.user_id, 5);
                assert_eq!(p.message_content, "hello world");
                assert!(!seen.contains(&p.sent_at));
                seen.push(p.sent_at.clone());
                for s in &join_stamps {
                    assert_ne!(p.sent_at, s.to_string());
                }
            }
            _ => panic!("steady state emitted a non-broadcast message"),
        }
    }
}
