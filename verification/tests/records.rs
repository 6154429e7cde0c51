use tg_ws_proxy::records::{
    unwrap_start, unwrap_step, wrap_tls_record, UnwrapAction, UnwrapEvent, UnwrapState,
    TLS_APPDATA_MAX,
};

fn numbered(len: usize) -> Vec<u8> {
    (0..len).map(|i| (i % 253) as u8).collect()
}

/// Drives the reader over `stream` and collects what it delivers.
fn read_all(stream: &[u8]) -> Vec<u8> {
    let mut plain = Vec::new();
    let mut at = 0;
    let (mut state, mut action) = unwrap_start();
    loop {
        let event = match action {
            UnwrapAction::Read(len) if at + len <= stream.len() => {
                at += len;
                UnwrapEvent::Read(stream[at - len..at].to_vec())
            }
            UnwrapAction::Read(_) => UnwrapEvent::Failed,
            UnwrapAction::Deliver(bytes) => {
                plain.extend_from_slice(&bytes);
                UnwrapEvent::Delivered
            }
            UnwrapAction::Close => return plain,
        };
        (state, action) = unwrap_step(state, event);
    }
}

#[test]
fn nothing_makes_no_record() {
    assert_eq!(wrap_tls_record(&[]), Vec::<u8>::new());
}

#[test]
fn short_data_makes_one_record() {
    assert_eq!(
        wrap_tls_record(&[0xaa, 0xbb, 0xcc]),
        vec![0x17, 0x03, 0x03, 0x00, 0x03, 0xaa, 0xbb, 0xcc]
    );
}

#[test]
fn full_record_is_not_split() {
    let out = wrap_tls_record(&numbered(TLS_APPDATA_MAX));
    assert_eq!(out.len(), 16384 + 5);
    assert_eq!(out[..5], [0x17, 0x03, 0x03, 0x40, 0x00]);
}

#[test]
fn long_data_is_split() {
    let data = numbered(TLS_APPDATA_MAX + 300);
    let out = wrap_tls_record(&data);
    assert_eq!(out.len(), data.len() + 10);
    assert_eq!(out[..5], [0x17, 0x03, 0x03, 0x40, 0x00]);
    assert_eq!(out[5..5 + 16384], data[..16384]);
    assert_eq!(out[16389..16394], [0x17, 0x03, 0x03, 0x01, 0x2c]);
    assert_eq!(out[16394..], data[16384..]);
}

#[test]
fn wrapped_data_reads_back() {
    for len in [0, 1, 255, 256, 16383, 16384, 16385, 40000] {
        let data = numbered(len);
        assert_eq!(read_all(&wrap_tls_record(&data)), data);
    }
}

#[test]
fn streams_join() {
    let mut stream = wrap_tls_record(b"one ");
    stream.extend_from_slice(&wrap_tls_record(b"two"));
    assert_eq!(read_all(&stream), b"one two");
}

#[test]
fn change_cipher_spec_is_skipped() {
    let mut stream = vec![0x14, 0x03, 0x03, 0x00, 0x01, 0x01];
    stream.extend_from_slice(&[0x14, 0x03, 0x03, 0x00, 0x00]);
    stream.extend_from_slice(&[0x17, 0x03, 0x03, 0x00, 0x00]);
    stream.extend_from_slice(&wrap_tls_record(b"payload"));
    assert_eq!(read_all(&stream), b"payload");
}

#[test]
fn other_record_ends_the_stream() {
    let mut stream = wrap_tls_record(b"seen");
    stream.extend_from_slice(&[0x15, 0x03, 0x03, 0x00, 0x02, 0x01, 0x00]);
    stream.extend_from_slice(&wrap_tls_record(b"unseen"));
    assert_eq!(read_all(&stream), b"seen");
}

#[test]
fn cut_record_is_dropped() {
    let stream = wrap_tls_record(b"whole");
    assert_eq!(read_all(&stream[..stream.len() - 1]), b"");
    assert_eq!(read_all(&stream[..4]), b"");
}

#[test]
fn largest_incoming_record_is_taken() {
    let body = numbered(65535);
    let mut stream = vec![0x17, 0x03, 0x03, 0xff, 0xff];
    stream.extend_from_slice(&body);
    assert_eq!(read_all(&stream), body);
}

#[test]
fn reader_closes_on_failures() {
    for (state, event) in [
        (UnwrapState::Header, UnwrapEvent::Failed),
        (UnwrapState::Header, UnwrapEvent::Read(vec![0x17])),
        (UnwrapState::Skip(2), UnwrapEvent::Read(vec![1])),
        (UnwrapState::Payload(2), UnwrapEvent::Failed),
        (UnwrapState::Delivering, UnwrapEvent::Failed),
        (UnwrapState::Closed, UnwrapEvent::Delivered),
    ] {
        let (state, action) = unwrap_step(state, event);
        assert_eq!(state, UnwrapState::Closed);
        assert!(matches!(action, UnwrapAction::Close));
    }
}

#[test]
fn silent_records_between_others_change_nothing() {
    let first = wrap_tls_record(b"first ");
    let second = wrap_tls_record(b"second");
    let mut long_ccs = vec![0x14, 0x7f, 0x00, 0xff, 0xff];
    long_ccs.extend_from_slice(&numbered(65535));
    for silent in [
        vec![0x14, 0x03, 0x01, 0x00, 0x01, 0x01],
        vec![0x14, 0x00, 0x00, 0x00, 0x00],
        vec![0x17, 0x03, 0x01, 0x00, 0x00],
        long_ccs,
    ] {
        for order in [
            [&silent, &first, &second],
            [&first, &silent, &second],
            [&first, &second, &silent],
        ] {
            let stream: Vec<u8> = order.iter().flat_map(|part| part.iter().copied()).collect();
            assert_eq!(read_all(&stream), b"first second");
        }
    }
}
