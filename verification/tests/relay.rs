use tg_ws_proxy::records::{unwrap_start, unwrap_step, UnwrapAction, UnwrapEvent};
use tg_ws_proxy::relay::{
    mask_start, mask_step, pump_step, MaskAction, MaskEvent, MaskState, Pump, PumpAction, PumpEvent,
};

#[test]
fn masking_pump_carries_bytes_as_they_are() {
    assert!(matches!(pump_step(Pump::Masking, PumpEvent::Started), PumpAction::Read(16384)));
    match pump_step(Pump::Masking, PumpEvent::Read(vec![1, 2])) {
        PumpAction::Write(bytes) => assert_eq!(bytes, vec![1, 2]),
        other => panic!("{:?}", other),
    }
    assert!(matches!(pump_step(Pump::Masking, PumpEvent::Written), PumpAction::Read(16384)));
}

#[test]
fn framing_pump_writes_records() {
    assert!(matches!(pump_step(Pump::Framing, PumpEvent::Started), PumpAction::Read(65536)));
    match pump_step(Pump::Framing, PumpEvent::Read(vec![7, 8])) {
        PumpAction::Write(bytes) => assert_eq!(bytes, vec![0x17, 0x03, 0x03, 0x00, 0x02, 7, 8]),
        other => panic!("{:?}", other),
    }
    assert_eq!(Pump::Framing.buffer_len(), 65536);
    assert_eq!(Pump::Masking.buffer_len(), 16384);
}

#[test]
fn pumps_end_at_the_end_and_on_failures() {
    for event in [PumpEvent::Read(vec![]), PumpEvent::ReadFailed, PumpEvent::WriteFailed] {
        assert!(matches!(pump_step(Pump::Masking, event), PumpAction::Shutdown));
    }
    for event in [PumpEvent::Read(vec![]), PumpEvent::ReadFailed, PumpEvent::WriteFailed] {
        assert!(matches!(pump_step(Pump::Framing, event), PumpAction::Stop));
    }
}

#[test]
fn masking_needs_a_domain() {
    let (state, action) = mask_start("");
    assert_eq!(state, MaskState::Finished);
    assert!(matches!(action, MaskAction::Stop));
}

#[test]
fn masking_dials_counts_forwards_and_relays() {
    let (state, action) = mask_start("example.org");
    match action {
        MaskAction::Connect(address) => assert_eq!(address, "example.org:443"),
        other => panic!("{:?}", other),
    }
    let (state, action) = mask_step(state, MaskEvent::Connected, b"hello");
    assert!(matches!(action, MaskAction::Count));
    let (state, action) = mask_step(state, MaskEvent::Counted, b"hello");
    match action {
        MaskAction::Write(bytes) => assert_eq!(bytes, b"hello"),
        other => panic!("{:?}", other),
    }
    let (state, action) = mask_step(state, MaskEvent::Written, b"hello");
    assert_eq!(state, MaskState::Finished);
    assert!(matches!(action, MaskAction::Relay));
}

#[test]
fn masking_without_first_bytes_relays_at_once() {
    let (state, action) = mask_step(MaskState::Counting, MaskEvent::Counted, b"");
    assert_eq!(state, MaskState::Finished);
    assert!(matches!(action, MaskAction::Relay));
}

#[test]
fn masking_stops_on_failures() {
    for (state, event) in [
        (MaskState::Connecting, MaskEvent::ConnectFailed),
        (MaskState::Forwarding, MaskEvent::WriteFailed),
        (MaskState::Finished, MaskEvent::Connected),
    ] {
        let (state, action) = mask_step(state, event, b"hello");
        assert_eq!(state, MaskState::Finished);
        assert!(matches!(action, MaskAction::Stop));
    }
}

#[test]
fn framed_chunks_come_out_as_one_stream() {
    let chunks: [Vec<u8>; 3] = [vec![1; 20000], vec![2], vec![3; 70000]];
    let mut stream = Vec::new();
    for chunk in &chunks {
        match pump_step(Pump::Framing, PumpEvent::Read(chunk.clone())) {
            PumpAction::Write(bytes) => stream.extend_from_slice(&bytes),
            other => panic!("{:?}", other),
        }
    }
    let mut plain = Vec::new();
    let mut rest = &stream[..];
    let (mut state, mut action) = unwrap_start();
    loop {
        let event = match action {
            UnwrapAction::Read(len) if len <= rest.len() => {
                let (head, tail) = rest.split_at(len);
                rest = tail;
                UnwrapEvent::Read(head.to_vec())
            }
            UnwrapAction::Read(_) => UnwrapEvent::Failed,
            UnwrapAction::Deliver(bytes) => {
                plain.extend_from_slice(&bytes);
                UnwrapEvent::Delivered
            }
            UnwrapAction::Close => break,
        };
        (state, action) = unwrap_step(state, event);
    }
    assert_eq!(plain, chunks.concat());
}
