use hmac::{Hmac, Mac};
use sha2::Sha256;
use std::time::{SystemTime, UNIX_EPOCH};
use tg_ws_proxy::external::unix_seconds;
use tg_ws_proxy::hello::{
    assemble_server_hello, build_server_hello, check_client_hello, seal_server_hello,
    server_hello_template, unsealed_server_hello, verify_client_hello, verify_client_hello_at,
};

fn tag(key: &[u8], message: &[u8]) -> [u8; 32] {
    let mut mac = Hmac::<Sha256>::new_from_slice(key).unwrap();
    mac.update(message);
    mac.finalize().into_bytes().into()
}

/// A client hello of `len` bytes with a zeroed random and a session id.
fn blank_hello(len: usize) -> Vec<u8> {
    let mut hello: Vec<u8> = (0..len).map(|i| (i * 7 % 256) as u8).collect();
    hello[..6].copy_from_slice(&[0x16, 0x03, 0x01, 0x00, 0x5f, 0x01]);
    for b in &mut hello[11..43] {
        *b = 0;
    }
    if len > 43 {
        hello[43] = 0x20;
    }
    hello
}

/// The hello as a holder of the secret sends it.
fn authentic_hello(mut hello: Vec<u8>, secret: &[u8], timestamp: u32) -> Vec<u8> {
    let tag = tag(secret, &hello);
    hello[11..43].copy_from_slice(&tag);
    for (i, b) in timestamp.to_le_bytes().iter().enumerate() {
        hello[39 + i] ^= b;
    }
    hello
}

fn unix_now() -> u32 {
    SystemTime::now().duration_since(UNIX_EPOCH).unwrap().as_secs() as u32
}

fn from_hex(text: &str) -> Vec<u8> {
    hex::decode(text).unwrap()
}

const SECRET: &[u8] = b"0123456789abcdef";

#[test]
fn authentic_hello_is_accepted() {
    let now = unix_now();
    let hello = authentic_hello(blank_hello(100), SECRET, now);
    let said = verify_client_hello(&hello, SECRET).unwrap();
    assert_eq!(said.timestamp, now);
    assert_eq!(said.client_random[..], hello[11..43]);
    assert_eq!(said.session_id[..], hello[44..76]);
}

#[test]
fn wrong_secret_is_refused() {
    let hello = authentic_hello(blank_hello(100), SECRET, unix_now());
    assert!(verify_client_hello(&hello, b"another secret").is_none());
}

#[test]
fn changed_hello_is_refused() {
    let mut hello = authentic_hello(blank_hello(100), SECRET, unix_now());
    hello[99] ^= 1;
    assert!(verify_client_hello(&hello, SECRET).is_none());
}

#[test]
fn stale_hello_is_refused() {
    let hello = authentic_hello(blank_hello(100), SECRET, unix_now() - 1000);
    assert!(verify_client_hello(&hello, SECRET).is_none());
}

#[test]
fn malformed_hellos_are_refused() {
    let hello = authentic_hello(blank_hello(100), SECRET, unix_now());
    assert!(verify_client_hello(&[], SECRET).is_none());
    assert!(verify_client_hello(&hello[..42], SECRET).is_none());
    let mut other_record = hello.clone();
    other_record[0] = 0x17;
    assert!(verify_client_hello(&other_record, SECRET).is_none());
    let mut other_message = hello;
    other_message[5] = 0x02;
    assert!(verify_client_hello(&other_message, SECRET).is_none());
}

#[test]
fn known_tag_of_a_hello() {
    let expected: [u8; 32] = from_hex(
        "62bf56ca637f6b450d3c95c3cceed11d67ac4cfb0a765e1cae4f89ca0d213a09",
    )
    .try_into()
    .unwrap();
    let mut hello = blank_hello(100);
    hello[11..43].copy_from_slice(&expected);
    // Timestamp 1 masked by the tag's last four bytes.
    hello[39] ^= 1;
    assert_eq!(check_client_hello(&hello, &expected, 100).unwrap().timestamp, 1);
    let now = unix_now();
    let mut fresh = blank_hello(100);
    fresh[11..43].copy_from_slice(&expected);
    for (i, b) in now.to_le_bytes().iter().enumerate() {
        fresh[39 + i] ^= b;
    }
    assert_eq!(verify_client_hello(&fresh, b"").unwrap().timestamp, now);
}

#[test]
fn tolerance_is_two_minutes_either_way() {
    let expected = [9u8; 32];
    let mut hello = blank_hello(100);
    hello[11..43].copy_from_slice(&expected);
    for (i, b) in 1_000_000u32.to_le_bytes().iter().enumerate() {
        hello[39 + i] ^= b;
    }
    for (now, fresh) in [
        (1_000_000, true),
        (1_000_120, true),
        (1_000_121, false),
        (999_880, true),
        (999_879, false),
        (i64::MAX, false),
        (i64::MIN, false),
    ] {
        assert_eq!(check_client_hello(&hello, &expected, now).is_some(), fresh);
    }
}

#[test]
fn session_id_needs_its_length_byte() {
    let expected = [0u8; 32];
    let mut hello = blank_hello(76);
    let said = check_client_hello(&hello, &expected, 0).unwrap();
    assert_eq!(said.session_id[..], hello[44..76]);
    hello[43] = 0x1f;
    assert_eq!(check_client_hello(&hello, &expected, 0).unwrap().session_id, [0u8; 32]);
    let short = blank_hello(75);
    assert_eq!(check_client_hello(&short, &expected, 0).unwrap().session_id, [0u8; 32]);
    let shortest = blank_hello(43);
    assert_eq!(check_client_hello(&shortest, &expected, 0).unwrap().timestamp, 0);
}

#[test]
fn tag_prefix_is_compared_to_its_end() {
    let hello = blank_hello(80);
    let mut expected = [0u8; 32];
    expected[27] = 1;
    assert!(check_client_hello(&hello, &expected, 0).is_none());
    expected[27] = 0;
    expected[28] = 1;
    assert_eq!(check_client_hello(&hello, &expected, 0).unwrap().timestamp, 1);
}

#[test]
fn template_layout() {
    let template = server_hello_template();
    assert_eq!(template.len(), 127);
    assert_eq!(
        template[..11],
        [0x16, 0x03, 0x03, 0x00, 0x7a, 0x02, 0x00, 0x00, 0x76, 0x03, 0x03]
    );
    assert_eq!(template[11..43], [0u8; 32]);
    assert_eq!(template[43], 0x20);
    assert_eq!(template[44..76], [0u8; 32]);
    assert_eq!(
        template[76..89],
        [0x13, 0x01, 0x00, 0x00, 0x2e, 0x00, 0x33, 0x00, 0x24, 0x00, 0x1d, 0x00, 0x20]
    );
    assert_eq!(template[89..121], [0u8; 32]);
    assert_eq!(template[121..], [0x00, 0x2b, 0x00, 0x02, 0x03, 0x04]);
}

#[test]
fn answer_for_known_randomness() {
    let filler: Vec<u8> = (0..1900).map(|i| (i % 251) as u8).collect();
    let secret: Vec<u8> = (0..16).collect();
    let answer =
        assemble_server_hello(&secret, &[0x33; 32], &[0x11; 32], &[0x22; 32], &filler);
    assert_eq!(answer.len(), 2038);
    assert_eq!(
        answer[11..43],
        from_hex("c8f302f52283625dc5737731a9674730466b0b994d7eaf843ad68cab95f84268")[..]
    );
    let mut expected = server_hello_template();
    expected[44..76].copy_from_slice(&[0x11; 32]);
    expected[89..121].copy_from_slice(&[0x22; 32]);
    expected.extend_from_slice(&[0x14, 0x03, 0x03, 0x00, 0x01, 0x01]);
    expected.extend_from_slice(&[0x17, 0x03, 0x03, 0x07, 0x6c]);
    expected.extend_from_slice(&filler);
    assert_eq!(unsealed_server_hello(&[0x11; 32], &[0x22; 32], &filler), expected);
    let random: [u8; 32] = answer[11..43].try_into().unwrap();
    assert_eq!(seal_server_hello(expected, &random), answer);
}

#[test]
fn built_answer_is_authentic() {
    let client_random = [0x5a; 32];
    let session_id = [0xc3; 32];
    let answer = build_server_hello(SECRET, &client_random, &session_id);
    let filler_len = answer.len() - 138;
    assert!((1900..=2100).contains(&filler_len));
    assert_eq!(answer[44..76], session_id);
    assert_eq!(answer[127..133], [0x14, 0x03, 0x03, 0x00, 0x01, 0x01]);
    assert_eq!(
        answer[133..138],
        [0x17, 0x03, 0x03, (filler_len >> 8) as u8, (filler_len & 0xff) as u8]
    );
    let mut covered = client_random.to_vec();
    covered.extend_from_slice(&answer);
    for b in &mut covered[32 + 11..32 + 43] {
        *b = 0;
    }
    assert_eq!(answer[11..43], tag(SECRET, &covered));
}

#[test]
fn answers_differ() {
    let first = build_server_hello(SECRET, &[1; 32], &[2; 32]);
    let second = build_server_hello(SECRET, &[1; 32], &[2; 32]);
    assert_ne!(first[89..121], [0u8; 32]);
    assert_ne!(first[89..121], second[89..121]);
    assert_ne!(first[138..2038], second[138..2038]);
    assert_ne!(first[138..2038], [0u8; 1900]);
}

#[test]
fn clock_readings_become_unix_time() {
    assert_eq!(unix_seconds(None), 0);
    assert_eq!(unix_seconds(Some(0)), 0);
    assert_eq!(unix_seconds(Some(1_700_000_000)), 1_700_000_000);
    assert_eq!(unix_seconds(Some(i64::MAX as u64)), i64::MAX);
    assert_eq!(unix_seconds(Some(i64::MAX as u64 + 1)), i64::MAX);
    assert_eq!(unix_seconds(Some(u64::MAX)), i64::MAX);
}

#[test]
fn hello_is_verified_at_a_given_time() {
    let hello = authentic_hello(blank_hello(100), SECRET, 777);
    assert_eq!(verify_client_hello_at(&hello, SECRET, 897).unwrap().timestamp, 777);
    assert!(verify_client_hello_at(&hello, SECRET, 898).is_none());
    assert!(verify_client_hello_at(&hello, b"other", 777).is_none());
    assert!(verify_client_hello_at(&hello[..42], SECRET, 777).is_none());
}
