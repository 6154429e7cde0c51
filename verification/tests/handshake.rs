use hmac::{Hmac, Mac};
use sha2::Sha256;
use std::time::{SystemTime, UNIX_EPOCH};
use tg_ws_proxy::handshake::{
    answer_verdict, handshake_start, handshake_step, handshake_step_at, HandshakeAction,
    HandshakeEvent, HandshakeState,
};

const SECRET: &[u8] = b"0123456789abcdef";

fn fresh_hello() -> Vec<u8> {
    hello_at(SystemTime::now().duration_since(UNIX_EPOCH).unwrap().as_secs() as u32)
}

fn hello_at(timestamp: u32) -> Vec<u8> {
    let mut hello = vec![0u8; 100];
    hello[..6].copy_from_slice(&[0x16, 0x03, 0x01, 0x00, 95, 0x01]);
    hello[43] = 0x20;
    let mut mac = Hmac::<Sha256>::new_from_slice(SECRET).unwrap();
    mac.update(&hello);
    let tag = mac.finalize().into_bytes();
    hello[11..43].copy_from_slice(&tag);
    for (i, b) in timestamp.to_le_bytes().iter().enumerate() {
        hello[39 + i] ^= b;
    }
    hello
}

/// Feeds a whole record to a new handshake.
fn offer(record: &[u8], secret: &[u8]) -> (HandshakeState, HandshakeAction) {
    let (state, action) = handshake_start(record[0]);
    assert!(matches!(action, HandshakeAction::Read(4)));
    let (state, action) =
        handshake_step(state, HandshakeEvent::Read(record[1..5].to_vec()), secret);
    match action {
        HandshakeAction::Read(len) => assert_eq!(len, record.len() - 5),
        other => panic!("{:?}", other),
    }
    handshake_step(state, HandshakeEvent::Read(record[5..].to_vec()), secret)
}

#[test]
fn holder_is_answered_and_relayed() {
    let hello = fresh_hello();
    let (state, action) = offer(&hello, SECRET);
    match action {
        HandshakeAction::Write(answer) => assert_eq!(answer[44..76], hello[44..76]),
        other => panic!("{:?}", other),
    }
    let (state, action) = handshake_step(state, HandshakeEvent::Written, SECRET);
    assert!(matches!(state, HandshakeState::Finished));
    assert!(matches!(action, HandshakeAction::Relay));
}

#[test]
fn stranger_is_masked_with_what_it_sent() {
    let hello = fresh_hello();
    let (state, action) = offer(&hello, b"some other secret");
    assert!(matches!(state, HandshakeState::Finished));
    match action {
        HandshakeAction::Mask(sent) => assert_eq!(sent, hello),
        other => panic!("{:?}", other),
    }
}

#[test]
fn odd_record_is_masked_with_what_it_sent() {
    let record = [0x47, 0x45, 0x54, 0x00, 0x03, 1, 2, 3];
    match offer(&record, SECRET).1 {
        HandshakeAction::Mask(sent) => assert_eq!(sent, record),
        other => panic!("{:?}", other),
    }
    let empty = [0x16, 0x03, 0x01, 0x00, 0x00];
    match offer(&empty, SECRET).1 {
        HandshakeAction::Mask(sent) => assert_eq!(sent, empty),
        other => panic!("{:?}", other),
    }
}

#[test]
fn timeouts_and_failures_close() {
    for (state, event) in [
        (HandshakeState::Header(0x16), HandshakeEvent::TimedOut),
        (HandshakeState::Header(0x16), HandshakeEvent::ReadFailed),
        (HandshakeState::Header(0x16), HandshakeEvent::Read(vec![1, 2, 3])),
        (HandshakeState::Body(vec![0x16, 3, 1, 0, 1]), HandshakeEvent::TimedOut),
        (HandshakeState::Body(vec![0x16, 3, 1, 0, 1]), HandshakeEvent::ReadFailed),
        (HandshakeState::Body(vec![0x16, 3, 1, 0, 1]), HandshakeEvent::Read(vec![])),
        (HandshakeState::Answering(0), HandshakeEvent::WriteFailed),
        (HandshakeState::Finished, HandshakeEvent::Written),
    ] {
        let (state, action) = handshake_step(state, event, SECRET);
        assert!(matches!(state, HandshakeState::Finished));
        assert!(matches!(action, HandshakeAction::Close));
    }
}

#[test]
fn verdict_decides_the_answer() {
    let (state, action) = answer_verdict(None, vec![1, 2, 3], SECRET);
    assert!(matches!(state, HandshakeState::Finished));
    match action {
        HandshakeAction::Mask(sent) => assert_eq!(sent, vec![1, 2, 3]),
        other => panic!("{:?}", other),
    }
    let said = tg_ws_proxy::hello::TlsVerifyOk {
        client_random: [1; 32],
        session_id: [2; 32],
        timestamp: 3,
    };
    let (state, action) = answer_verdict(Some(said), vec![1, 2, 3], SECRET);
    assert!(matches!(state, HandshakeState::Answering(3)));
    match action {
        HandshakeAction::Write(answer) => assert_eq!(answer[44..76], [2; 32]),
        other => panic!("{:?}", other),
    }
}

#[test]
fn time_decides_the_answer() {
    let hello = hello_at(5000);
    for (now, fresh) in [(4879, false), (4880, true), (5000, true), (5120, true), (5121, false)] {
        let (state, action) = handshake_step_at(
            HandshakeState::Body(hello[..5].to_vec()),
            HandshakeEvent::Read(hello[5..].to_vec()),
            SECRET,
            now,
        );
        if fresh {
            assert!(matches!(state, HandshakeState::Answering(5000)));
            assert!(matches!(action, HandshakeAction::Write(_)));
        } else {
            assert!(matches!(state, HandshakeState::Finished));
            match action {
                HandshakeAction::Mask(sent) => assert_eq!(sent, hello),
                other => panic!("{:?}", other),
            }
        }
    }
}
