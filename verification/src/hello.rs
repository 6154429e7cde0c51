//! The disguised handshake messages: checking the client's hello and building the server's.

use vstd::prelude::*;

#[allow(unused_imports)]
use crate::bytes::{append, copy32, overwrite32, zeros};
#[allow(unused_imports)]
use crate::external::{fill_random, hmac_sha256, hmac_sha256_tag, now_unix, random_between};
#[allow(unused_imports)]
use crate::records::{
    announced_len, push_header, record, RECORD_HEADER_LEN, TLS_RECORD_APPDATA, TLS_RECORD_CCS,
    TLS_RECORD_HANDSHAKE,
};

verus! {

/// Where the client random begins in a client hello.
pub const CLIENT_RANDOM_OFFSET: usize = 11;

/// Bytes of the client random.
pub const CLIENT_RANDOM_LEN: usize = 32;

/// Where the session id begins in a client hello.
pub const SESSION_ID_OFFSET: usize = 44;

/// Bytes of a session id.
pub const SESSION_ID_LEN: usize = 32;

/// How many seconds the client's clock may be off, either way.
pub const TIMESTAMP_TOLERANCE: i64 = 120;

/// Bytes of the client random that carry the tag as it is. The other four carry the client's
/// timestamp, masked by the end of the tag.
pub const TAG_PREFIX_LEN: usize = 28;

/// What an accepted client hello says.
#[derive(Clone, Copy, Debug, PartialEq, Eq)]
pub struct TlsVerifyOk {
    pub client_random: [u8; 32],
    pub session_id: [u8; 32],
    pub timestamp: u32,
}

/// [`TlsVerifyOk`] over byte sequences.
pub struct VerifiedHello {
    pub client_random: Seq<u8>,
    pub session_id: Seq<u8>,
    pub timestamp: u32,
}

impl View for TlsVerifyOk {
    type V = VerifiedHello;

    open spec fn view(&self) -> VerifiedHello {
        VerifiedHello {
            client_random: self.client_random@,
            session_id: self.session_id@,
            timestamp: self.timestamp,
        }
    }
}

/// A verdict over byte sequences.
pub open spec fn verdict_view(verdict: Option<TlsVerifyOk>) -> Option<VerifiedHello> {
    match verdict {
        Some(hello) => Some(hello@),
        None => None,
    }
}

/// A handshake record that holds a client hello, long enough for the client random.
pub open spec fn is_client_hello(data: Seq<u8>) -> bool {
    &&& data.len() >= CLIENT_RANDOM_OFFSET + CLIENT_RANDOM_LEN
    &&& data[0] == TLS_RECORD_HANDSHAKE
    &&& data[5] == 0x01
}

/// The client random of a hello.
pub open spec fn random_of(data: Seq<u8>) -> Seq<u8> {
    data.subrange(CLIENT_RANDOM_OFFSET as int, CLIENT_RANDOM_OFFSET + CLIENT_RANDOM_LEN)
}

/// The hello with `random` in place of its client random.
pub open spec fn with_random(data: Seq<u8>, random: Seq<u8>) -> Seq<u8> {
    data.take(CLIENT_RANDOM_OFFSET as int) + random + data.skip(
        CLIENT_RANDOM_OFFSET + CLIENT_RANDOM_LEN,
    )
}

/// The hello with its client random zeroed, which is what the client's tag covers.
pub open spec fn blanked(data: Seq<u8>) -> Seq<u8> {
    with_random(data, zeros(CLIENT_RANDOM_LEN as nat))
}

/// The session id of a hello: the 32 bytes behind a length byte of 32, or zeros.
pub open spec fn session_id_of(data: Seq<u8>) -> Seq<u8> {
    if data.len() >= SESSION_ID_OFFSET + SESSION_ID_LEN && data[43] == 0x20 {
        data.subrange(SESSION_ID_OFFSET as int, SESSION_ID_OFFSET + SESSION_ID_LEN)
    } else {
        zeros(SESSION_ID_LEN as nat)
    }
}

/// Four bytes as a little-endian number.
pub open spec fn le_u32(b0: u8, b1: u8, b2: u8, b3: u8) -> u32 {
    (b0 + b1 * 0x100 + b2 * 0x1_0000 + b3 * 0x100_0000) as u32
}

/// The timestamp that `tag` unmasks from a client random.
pub open spec fn masked_timestamp(random: Seq<u8>, tag: Seq<u8>) -> u32 {
    le_u32(
        random[28] ^ tag[28],
        random[29] ^ tag[29],
        random[30] ^ tag[30],
        random[31] ^ tag[31],
    )
}

/// Whether a timestamp lies within [`TIMESTAMP_TOLERANCE`] seconds of the clock.
pub open spec fn is_fresh(timestamp: u32, now: int) -> bool {
    -TIMESTAMP_TOLERANCE <= now - timestamp <= TIMESTAMP_TOLERANCE
}

/// The verdict on `data`, where `tag` is the tag expected of it and `now` the time.
pub open spec fn verdict_on(data: Seq<u8>, tag: Seq<u8>, now: int) -> Option<VerifiedHello> {
    let random = random_of(data);
    let timestamp = masked_timestamp(random, tag);
    if is_client_hello(data) && random.take(TAG_PREFIX_LEN as int) == tag.take(
        TAG_PREFIX_LEN as int,
    ) && is_fresh(timestamp, now) {
        Some(
            VerifiedHello { client_random: random, session_id: session_id_of(data), timestamp },
        )
    } else {
        None
    }
}

/// The tag that a hello must carry to be accepted under `secret`.
pub open spec fn expected_tag(data: Seq<u8>, secret: Seq<u8>) -> Seq<u8> {
    hmac_sha256_tag(secret, blanked(data))@
}

/// Whether `data` is laid out as a client hello.
fn looks_like_client_hello(data: &[u8]) -> (yes: bool)
    ensures
        yes == is_client_hello(data@),
{
    data.len() >= CLIENT_RANDOM_OFFSET + CLIENT_RANDOM_LEN && data[0] == TLS_RECORD_HANDSHAKE
        && data[5] == 0x01
}

/// A copy of a hello with its client random zeroed.
fn blank_random(data: &[u8]) -> (copy: Vec<u8>)
    requires
        is_client_hello(data@),
    ensures
        copy@ == blanked(data@),
{
    let mut copy = vstd::slice::slice_to_vec(data);
    let blank: [u8; 32] = [0u8; 32];
    assert(blank@ =~= zeros(32));
    overwrite32(&mut copy, CLIENT_RANDOM_OFFSET, &blank);
    copy
}

/// Whether the first [`TAG_PREFIX_LEN`] bytes of both agree.
fn same_tag_prefix(a: &[u8; 32], b: &[u8; 32]) -> (same: bool)
    ensures
        same == (a@.take(TAG_PREFIX_LEN as int) == b@.take(TAG_PREFIX_LEN as int)),
{
    for i in 0..TAG_PREFIX_LEN
        invariant
            forall|j: int| 0 <= j < i ==> a@[j] == b@[j],
    {
        if a[i] != b[i] {
            assert(a@.take(TAG_PREFIX_LEN as int)[i as int] == a@[i as int]);
            assert(b@.take(TAG_PREFIX_LEN as int)[i as int] == b@[i as int]);
            return false;
        }
    }
    assert(a@.take(TAG_PREFIX_LEN as int) =~= b@.take(TAG_PREFIX_LEN as int));
    true
}

/// Unmasks the timestamp in a client random.
fn unmask_timestamp(random: &[u8; 32], tag: &[u8; 32]) -> (timestamp: u32)
    ensures
        timestamp == masked_timestamp(random@, tag@),
{
    let b0: u32 = (random[28] ^ tag[28]) as u32;
    let b1: u32 = (random[29] ^ tag[29]) as u32;
    let b2: u32 = (random[30] ^ tag[30]) as u32;
    let b3: u32 = (random[31] ^ tag[31]) as u32;
    b0 + b1 * 0x100 + b2 * 0x1_0000 + b3 * 0x100_0000
}

/// Judges a client hello, given the tag that is expected of it and the time in Unix seconds.
/// The hello is accepted where it is laid out as one, its client random begins with the first
/// 28 bytes of the tag, and the timestamp in the random's last four bytes is fresh.
pub fn check_client_hello(data: &[u8], expected: &[u8; 32], now: i64) -> (verdict: Option<
    TlsVerifyOk,
>)
    ensures
        verdict_view(verdict) == verdict_on(data@, expected@, now as int),
        verdict matches Some(said) ==> {
            &&& said.client_random@ == data@.subrange(11, 43)
            &&& data@.len() >= 76 && data@[43] == 0x20 ==> said.session_id@ == data@.subrange(
                44,
                76,
            )
            &&& !(data@.len() >= 76 && data@[43] == 0x20) ==> said.session_id@ == Seq::new(
                32,
                |i: int| 0u8,
            )
        },
{
    if !looks_like_client_hello(data) {
        return None;
    }
    let client_random = copy32(data, CLIENT_RANDOM_OFFSET);
    if !same_tag_prefix(&client_random, expected) {
        return None;
    }
    let timestamp = unmask_timestamp(&client_random, expected);
    let drift: i128 = now as i128 - timestamp as i128;
    if drift > TIMESTAMP_TOLERANCE as i128 || drift < -(TIMESTAMP_TOLERANCE as i128) {
        return None;
    }
    let session_id: [u8; 32] = if data.len() >= SESSION_ID_OFFSET + SESSION_ID_LEN && data[43]
        == 0x20 {
        copy32(data, SESSION_ID_OFFSET)
    } else {
        [0u8; 32]
    };
    assert(session_id@ =~= session_id_of(data@));
    assert(data@.len() < 76 || data@[43] != 0x20 ==> session_id@ =~= Seq::new(32, |i: int| 0u8));
    Some(TlsVerifyOk { client_random, session_id, timestamp })
}

/// Checks that a client hello was made by a holder of `secret` and is fresh at the Unix time
/// `now`.
pub fn verify_client_hello_at(data: &[u8], secret: &[u8], now: i64) -> (verdict: Option<
    TlsVerifyOk,
>)
    ensures
        verdict_view(verdict) == verdict_on(data@, expected_tag(data@, secret@), now as int),
{
    if !looks_like_client_hello(data) {
        return None;
    }
    let blank = blank_random(data);
    let expected = hmac_sha256(secret, blank.as_slice());
    check_client_hello(data, &expected, now)
}

/// Checks that a client hello was made by a holder of `secret` and is fresh by the system
/// clock. Where the clock decides, the verdict is the one for what the clock told, which is
/// no time before the Unix epoch.
pub fn verify_client_hello(data: &[u8], secret: &[u8]) -> (verdict: Option<TlsVerifyOk>)
    ensures
        exists|now: i64|
            now >= 0 && verdict_view(verdict) == #[trigger] verdict_on(
                data@,
                expected_tag(data@, secret@),
                now as int,
            ),
{
    let now = now_unix();
    verify_client_hello_at(data, secret, now)
}

/// Where the server random begins in the server's answer.
pub const SH_RANDOM_OFF: usize = 11;

/// Where the session id begins in the server's answer.
pub const SH_SESSID_OFF: usize = 44;

/// Where the key share begins in the server's answer.
pub const SH_PUBKEY_OFF: usize = 89;

/// The fewest bytes of random application data in the server's answer.
pub const FILLER_MIN: usize = 1900;

/// The most bytes of random application data in the server's answer.
pub const FILLER_MAX: usize = 2100;

/// A server-hello message: TLS 1.3 behind the version of 1.2, the cipher suite
/// TLS_AES_128_GCM_SHA256, an X25519 key share and the supported-versions extension.
pub open spec fn server_hello_message(
    random: Seq<u8>,
    session_id: Seq<u8>,
    pubkey: Seq<u8>,
) -> Seq<u8> {
    seq![0x02u8, 0x00, 0x00, 0x76, 0x03, 0x03] + random + seq![0x20u8] + session_id + seq![
        0x13u8,
        0x01,
        0x00,
        0x00,
        0x2e,
        0x00,
        0x33,
        0x00,
        0x24,
        0x00,
        0x1d,
        0x00,
        0x20,
    ] + pubkey + seq![0x00u8, 0x2b, 0x00, 0x02, 0x03, 0x04]
}

/// The server's answer: a server hello, a change-cipher-spec record, and application data.
pub open spec fn server_flight(
    random: Seq<u8>,
    session_id: Seq<u8>,
    pubkey: Seq<u8>,
    filler: Seq<u8>,
) -> Seq<u8> {
    record(TLS_RECORD_HANDSHAKE, server_hello_message(random, session_id, pubkey)) + record(
        TLS_RECORD_CCS,
        seq![0x01u8],
    ) + record(TLS_RECORD_APPDATA, filler)
}

/// The server's answer before its random is filled in.
pub open spec fn unsealed_flight(session_id: Seq<u8>, pubkey: Seq<u8>, filler: Seq<u8>) -> Seq<u8> {
    server_flight(zeros(32), session_id, pubkey, filler)
}

/// The server random: the tag of the client random and the unsealed answer.
pub open spec fn server_random(
    secret: Seq<u8>,
    client_random: Seq<u8>,
    session_id: Seq<u8>,
    pubkey: Seq<u8>,
    filler: Seq<u8>,
) -> Seq<u8> {
    hmac_sha256_tag(secret, client_random + unsealed_flight(session_id, pubkey, filler))@
}

/// Whether `answer` answers a hello with this random and session id under `secret`, with this
/// key share and this filler.
pub open spec fn is_sealed_flight(
    answer: Seq<u8>,
    secret: Seq<u8>,
    client_random: Seq<u8>,
    session_id: Seq<u8>,
    pubkey: Seq<u8>,
    filler: Seq<u8>,
) -> bool {
    &&& pubkey.len() == 32
    &&& FILLER_MIN <= filler.len() <= FILLER_MAX
    &&& answer == server_flight(
        server_random(secret, client_random, session_id, pubkey, filler),
        session_id,
        pubkey,
        filler,
    )
}

/// Whether `answer` answers a hello with this random and session id under `secret`, with some
/// key share and some filler.
pub open spec fn answers_hello(
    answer: Seq<u8>,
    secret: Seq<u8>,
    client_random: Seq<u8>,
    session_id: Seq<u8>,
) -> bool {
    exists|pubkey: Seq<u8>, filler: Seq<u8>|
        is_sealed_flight(answer, secret, client_random, session_id, pubkey, filler)
}

/// The server-hello record with its three 32-byte fields zeroed.
pub fn server_hello_template() -> (template: Vec<u8>)
    ensures
        template@ == record(
            TLS_RECORD_HANDSHAKE,
            server_hello_message(zeros(32), zeros(32), zeros(32)),
        ),
        template@.len() == 127,
{
    let blank: [u8; 32] = [0u8; 32];
    assert(blank@ =~= zeros(32));
    let mut template: Vec<u8> = Vec::new();
    push_header(&mut template, TLS_RECORD_HANDSHAKE, 0x7a);
    append(&mut template, &[0x02, 0x00, 0x00, 0x76]);
    append(&mut template, &[0x03, 0x03]);
    append(&mut template, &blank);
    append(&mut template, &[0x20]);
    append(&mut template, &blank);
    append(&mut template, &[0x13, 0x01, 0x00]);
    append(&mut template, &[0x00, 0x2e]);
    append(&mut template, &[0x00, 0x33, 0x00, 0x24, 0x00, 0x1d, 0x00, 0x20]);
    append(&mut template, &blank);
    append(&mut template, &[0x00, 0x2b, 0x00, 0x02, 0x03, 0x04]);
    assert(template@ =~= record(
        TLS_RECORD_HANDSHAKE,
        server_hello_message(zeros(32), zeros(32), zeros(32)),
    ));
    template
}


/// Writing a field of the server-hello record leaves the record with that field.
proof fn lemma_hello_fields(random: Seq<u8>, session_id: Seq<u8>, pubkey: Seq<u8>, field: Seq<u8>)
    requires
        random.len() == 32,
        session_id.len() == 32,
        pubkey.len() == 32,
        field.len() == 32,
    ensures
        ({
            let whole = record(
                TLS_RECORD_HANDSHAKE,
                server_hello_message(random, session_id, pubkey),
            );
            &&& whole.len() == 127
            &&& whole.take(SH_RANDOM_OFF as int) + field + whole.skip(SH_RANDOM_OFF + 32) == record(
                TLS_RECORD_HANDSHAKE,
                server_hello_message(field, session_id, pubkey),
            )
            &&& whole.take(SH_SESSID_OFF as int) + field + whole.skip(SH_SESSID_OFF + 32) == record(
                TLS_RECORD_HANDSHAKE,
                server_hello_message(random, field, pubkey),
            )
            &&& whole.take(SH_PUBKEY_OFF as int) + field + whole.skip(SH_PUBKEY_OFF + 32) == record(
                TLS_RECORD_HANDSHAKE,
                server_hello_message(random, session_id, field),
            )
        }),
{
    let whole = record(TLS_RECORD_HANDSHAKE, server_hello_message(random, session_id, pubkey));
    assert(whole.take(SH_RANDOM_OFF as int) + field + whole.skip(SH_RANDOM_OFF + 32) =~= record(
        TLS_RECORD_HANDSHAKE,
        server_hello_message(field, session_id, pubkey),
    ));
    assert(whole.take(SH_SESSID_OFF as int) + field + whole.skip(SH_SESSID_OFF + 32) =~= record(
        TLS_RECORD_HANDSHAKE,
        server_hello_message(random, field, pubkey),
    ));
    assert(whole.take(SH_PUBKEY_OFF as int) + field + whole.skip(SH_PUBKEY_OFF + 32) =~= record(
        TLS_RECORD_HANDSHAKE,
        server_hello_message(random, session_id, field),
    ));
}

/// Writing the random of an answer leaves the answer with that random.
proof fn lemma_flight_random(
    random: Seq<u8>,
    session_id: Seq<u8>,
    pubkey: Seq<u8>,
    filler: Seq<u8>,
    field: Seq<u8>,
)
    requires
        random.len() == 32,
        session_id.len() == 32,
        pubkey.len() == 32,
        field.len() == 32,
    ensures
        ({
            let whole = server_flight(random, session_id, pubkey, filler);
            &&& whole.len() == 138 + filler.len()
            &&& whole.take(SH_RANDOM_OFF as int) + field + whole.skip(SH_RANDOM_OFF + 32)
                == server_flight(field, session_id, pubkey, filler)
        }),
{
    lemma_hello_fields(random, session_id, pubkey, field);
    let hello = record(TLS_RECORD_HANDSHAKE, server_hello_message(random, session_id, pubkey));
    let tail = record(TLS_RECORD_CCS, seq![0x01u8]) + record(TLS_RECORD_APPDATA, filler);
    let whole = server_flight(random, session_id, pubkey, filler);
    assert(whole =~= hello + tail);
    let changed = hello.take(SH_RANDOM_OFF as int) + field + hello.skip(SH_RANDOM_OFF + 32);
    assert(whole.take(SH_RANDOM_OFF as int) + field + whole.skip(SH_RANDOM_OFF + 32) =~= changed
        + tail);
    assert(server_flight(field, session_id, pubkey, filler) =~= changed + tail);
}

/// Lays out the server's answer with its random still zeroed.
pub fn unsealed_server_hello(session_id: &[u8; 32], pubkey: &[u8; 32], filler: &[u8]) -> (answer:
    Vec<u8>)
    requires
        filler@.len() <= 0xffff,
    ensures
        answer@ == unsealed_flight(session_id@, pubkey@, filler@),
{
    let mut answer = server_hello_template();
    proof {
        lemma_hello_fields(zeros(32), zeros(32), zeros(32), session_id@);
        lemma_hello_fields(zeros(32), session_id@, zeros(32), pubkey@);
    }
    overwrite32(&mut answer, SH_SESSID_OFF, session_id);
    overwrite32(&mut answer, SH_PUBKEY_OFF, pubkey);
    let ghost hello = answer@;
    push_header(&mut answer, TLS_RECORD_CCS, 1);
    append(&mut answer, &[0x01]);
    assert(answer@ =~= hello + record(TLS_RECORD_CCS, seq![0x01u8]));
    push_header(&mut answer, TLS_RECORD_APPDATA, filler.len());
    append(&mut answer, filler);
    assert(answer@ =~= hello + record(TLS_RECORD_CCS, seq![0x01u8]) + record(
        TLS_RECORD_APPDATA,
        filler@,
    ));
    answer
}

/// Writes the server random into an answer.
pub fn seal_server_hello(unsealed: Vec<u8>, random: &[u8; 32]) -> (answer: Vec<u8>)
    requires
        unsealed@.len() >= SH_RANDOM_OFF + 32,
    ensures
        answer@ == unsealed@.take(SH_RANDOM_OFF as int) + random@ + unsealed@.skip(
            SH_RANDOM_OFF + 32,
        ),
{
    let mut answer = unsealed;
    overwrite32(&mut answer, SH_RANDOM_OFF, random);
    answer
}

/// The server's answer for a given key share and filler.
pub fn assemble_server_hello(
    secret: &[u8],
    client_random: &[u8; 32],
    session_id: &[u8; 32],
    pubkey: &[u8; 32],
    filler: &[u8],
) -> (answer: Vec<u8>)
    requires
        filler@.len() <= 0xffff,
    ensures
        answer@ == server_flight(
            server_random(secret@, client_random@, session_id@, pubkey@, filler@),
            session_id@,
            pubkey@,
            filler@,
        ),
{
    let unsealed = unsealed_server_hello(session_id, pubkey, filler);
    let mut covered: Vec<u8> = Vec::new();
    append(&mut covered, client_random);
    append(&mut covered, unsealed.as_slice());
    assert(covered@ =~= client_random@ + unsealed@);
    let random = hmac_sha256(secret, covered.as_slice());
    proof {
        lemma_flight_random(zeros(32), session_id@, pubkey@, filler@, random@);
    }
    seal_server_hello(unsealed, &random)
}

/// Answers a verified client hello: a server hello that echoes the session id, a
/// change-cipher-spec record, and between [`FILLER_MIN`] and [`FILLER_MAX`] random bytes of
/// application data. The server random is the tag of the client random and the answer.
pub fn build_server_hello(secret: &[u8], client_random: &[u8; 32], session_id: &[u8; 32]) -> (answer:
    Vec<u8>)
    ensures
        answers_hello(answer@, secret@, client_random@, session_id@),
{
    let mut share: Vec<u8> = vec![0u8; 32];
    fill_random(&mut share);
    let pubkey = copy32(share.as_slice(), 0);
    let filler_len = random_between(FILLER_MIN, FILLER_MAX);
    let mut filler: Vec<u8> = vec![0u8; filler_len];
    fill_random(&mut filler);
    let answer = assemble_server_hello(
        secret,
        client_random,
        session_id,
        &pubkey,
        filler.as_slice(),
    );
    assert(is_sealed_flight(
        answer@,
        secret@,
        client_random@,
        session_id@,
        pubkey@,
        filler@,
    ));
    answer
}

/// The four little-endian bytes of a timestamp.
pub open spec fn le_bytes(timestamp: u32) -> Seq<u8> {
    seq![
        (timestamp % 0x100) as u8,
        (timestamp / 0x100 % 0x100) as u8,
        (timestamp / 0x1_0000 % 0x100) as u8,
        (timestamp / 0x100_0000) as u8,
    ]
}

/// The client random that a holder of the secret puts into a hello whose expected tag is `tag`.
pub open spec fn client_random_for(tag: Seq<u8>, timestamp: u32) -> Seq<u8> {
    let time = le_bytes(timestamp);
    tag.take(TAG_PREFIX_LEN as int) + seq![
        tag[28] ^ time[0],
        tag[29] ^ time[1],
        tag[30] ^ time[2],
        tag[31] ^ time[3],
    ]
}

/// The hello `data` as a holder of `secret` sends it at `timestamp`.
pub open spec fn authentic_hello(data: Seq<u8>, secret: Seq<u8>, timestamp: u32) -> Seq<u8> {
    with_random(data, client_random_for(expected_tag(data, secret), timestamp))
}

/// Little-endian bytes and the number they stand for determine each other.
proof fn lemma_le_bytes(b0: u8, b1: u8, b2: u8, b3: u8, timestamp: u32)
    ensures
        le_bytes(le_u32(b0, b1, b2, b3)) == seq![b0, b1, b2, b3],
        ({
            let time = le_bytes(timestamp);
            le_u32(time[0], time[1], time[2], time[3]) == timestamp
        }),
{
    let n: u32 = le_u32(b0, b1, b2, b3);
    assert(n == b0 + b1 * 0x100 + b2 * 0x1_0000 + b3 * 0x100_0000);
    assert(n % 0x100 == b0);
    assert(n / 0x100 == b1 + b2 * 0x100 + b3 * 0x1_0000);
    assert(n / 0x1_0000 == b2 + b3 * 0x100);
    assert(n / 0x100_0000 == b3);
    assert(le_bytes(n) =~= seq![b0, b1, b2, b3]);
}

proof fn lemma_xor_twice(a: u8, b: u8)
    ensures
        (a ^ b) ^ a == b,
        a ^ (b ^ a) == b,
{
    assert((a ^ b) ^ a == b) by (bit_vector);
    assert(a ^ (b ^ a) == b) by (bit_vector);
}

/// What a hello's tag covers does not depend on its client random.
pub proof fn law_tag_ignores_the_random(data: Seq<u8>, random: Seq<u8>, secret: Seq<u8>)
    requires
        data.len() >= CLIENT_RANDOM_OFFSET + CLIENT_RANDOM_LEN,
        random.len() == CLIENT_RANDOM_LEN,
    ensures
        blanked(with_random(data, random)) == blanked(data),
        expected_tag(with_random(data, random), secret) == expected_tag(data, secret),
{
    assert(blanked(with_random(data, random)) =~= blanked(data));
}

/// A hello that a holder of the secret sends at `timestamp` is accepted exactly while the
/// clock is within the tolerance of it, and its own random, session id and timestamp are what
/// the verdict says.
pub proof fn law_authentic_hello_is_accepted(
    data: Seq<u8>,
    secret: Seq<u8>,
    timestamp: u32,
    now: i64,
)
    requires
        is_client_hello(data),
    ensures
        ({
            let sent = authentic_hello(data, secret, timestamp);
            verdict_on(sent, expected_tag(sent, secret), now as int) == if is_fresh(
                timestamp,
                now as int,
            ) {
                Some(
                    VerifiedHello {
                        client_random: client_random_for(expected_tag(data, secret), timestamp),
                        session_id: session_id_of(data),
                        timestamp,
                    },
                )
            } else {
                None
            }
        }),
{
    let tag = expected_tag(data, secret);
    let random = client_random_for(tag, timestamp);
    let sent = authentic_hello(data, secret, timestamp);
    let time = le_bytes(timestamp);
    law_tag_ignores_the_random(data, random, secret);
    assert(random_of(sent) =~= random);
    assert(random.take(TAG_PREFIX_LEN as int) =~= tag.take(TAG_PREFIX_LEN as int));
    lemma_xor_twice(tag[28], time[0]);
    lemma_xor_twice(tag[29], time[1]);
    lemma_xor_twice(tag[30], time[2]);
    lemma_xor_twice(tag[31], time[3]);
    lemma_le_bytes(0, 0, 0, 0, timestamp);
    assert(masked_timestamp(random, tag) == timestamp);
    assert(session_id_of(sent) =~= session_id_of(data));
}

/// Only a hello that a holder of the secret could have sent is accepted: whatever is accepted
/// carries the tag of its own content and a fresh timestamp.
pub proof fn law_accepted_hello_is_authentic(data: Seq<u8>, secret: Seq<u8>, now: i64)
    requires
        verdict_on(data, expected_tag(data, secret), now as int) is Some,
    ensures
        ({
            let said = verdict_on(data, expected_tag(data, secret), now as int)->0;
            &&& is_client_hello(data)
            &&& is_fresh(said.timestamp, now as int)
            &&& data == authentic_hello(data, secret, said.timestamp)
        }),
{
    let tag = expected_tag(data, secret);
    let random = random_of(data);
    let timestamp = masked_timestamp(random, tag);
    let time = le_bytes(timestamp);
    lemma_le_bytes(
        random[28] ^ tag[28],
        random[29] ^ tag[29],
        random[30] ^ tag[30],
        random[31] ^ tag[31],
        0,
    );
    assert(time[0] == random[28] ^ tag[28]);
    assert(time[1] == random[29] ^ tag[29]);
    assert(time[2] == random[30] ^ tag[30]);
    assert(time[3] == random[31] ^ tag[31]);
    lemma_xor_twice(tag[28], random[28]);
    lemma_xor_twice(tag[29], random[29]);
    lemma_xor_twice(tag[30], random[30]);
    lemma_xor_twice(tag[31], random[31]);
    let made = client_random_for(tag, timestamp);
    assert forall|i: int| 0 <= i < 28 implies random[i] == made[i] by {
        assert(random.take(TAG_PREFIX_LEN as int)[i] == tag.take(TAG_PREFIX_LEN as int)[i]);
    }
    assert(random =~= made);
    assert(data =~= with_random(data, random));
}

/// The client can check every answer: zeroing the 32 bytes of the server random gives the
/// bytes whose tag, with the client random in front, the server random is. The answer also
/// echoes the session id.
pub proof fn law_answer_is_authentic(
    answer: Seq<u8>,
    secret: Seq<u8>,
    client_random: Seq<u8>,
    session_id: Seq<u8>,
)
    requires
        answers_hello(answer, secret, client_random, session_id),
        session_id.len() == SESSION_ID_LEN,
    ensures
        answer.subrange(SH_SESSID_OFF as int, SH_SESSID_OFF + 32) == session_id,
        answer.subrange(SH_RANDOM_OFF as int, SH_RANDOM_OFF + 32) == hmac_sha256_tag(
            secret,
            client_random + (answer.take(SH_RANDOM_OFF as int) + zeros(32) + answer.skip(
                SH_RANDOM_OFF + 32,
            )),
        )@,
{
    let (pubkey, filler) = choose|pubkey: Seq<u8>, filler: Seq<u8>|
        is_sealed_flight(answer, secret, client_random, session_id, pubkey, filler);
    let random = server_random(secret, client_random, session_id, pubkey, filler);
    lemma_flight_random(random, session_id, pubkey, filler, zeros(32));
    assert(answer.subrange(SH_SESSID_OFF as int, SH_SESSID_OFF + 32) =~= session_id);
    assert(answer.subrange(SH_RANDOM_OFF as int, SH_RANDOM_OFF + 32) =~= random);
}

/// Every length that the answer announces is true: that of the server-hello record, that of
/// the message in it, and those of the two records behind it.
pub proof fn law_announced_lengths_are_true(
    random: Seq<u8>,
    session_id: Seq<u8>,
    pubkey: Seq<u8>,
    filler: Seq<u8>,
)
    requires
        random.len() == 32,
        session_id.len() == SESSION_ID_LEN,
        pubkey.len() == 32,
        FILLER_MIN <= filler.len() <= FILLER_MAX,
    ensures
        ({
            let message = server_hello_message(random, session_id, pubkey);
            let answer = server_flight(random, session_id, pubkey, filler);
            let behind_hello = answer.skip(RECORD_HEADER_LEN + message.len());
            let behind_ccs = behind_hello.skip(RECORD_HEADER_LEN + 1);
            &&& announced_len(answer) == message.len()
            &&& message[1] * 0x1_0000 + message[2] * 0x100 + message[3] == message.len() - 4
            &&& announced_len(behind_hello) == 1
            &&& announced_len(behind_ccs) == filler.len()
            &&& behind_ccs.len() == RECORD_HEADER_LEN + filler.len()
        }),
{
    let message = server_hello_message(random, session_id, pubkey);
    assert(message.len() == 122);
}

/// The timestamp in the bytes 39 to 42 of a hello, behind the last four bytes of the tag.
pub open spec fn hidden_time(data: Seq<u8>, tag: Seq<u8>) -> int {
    (data[39] ^ tag[28]) + (data[40] ^ tag[29]) * 256 + (data[41] ^ tag[30]) * 65536 + (data[42]
        ^ tag[31]) * 16777216
}

/// The verdict, byte by byte. A hello passes exactly where it has 43 bytes or more, is a
/// handshake record (0x16) with a client hello (0x01), carries the first 28 bytes of the tag
/// from byte 11 on, and hides a time no more than 120 seconds from the clock. The verdict then
/// says that time, the 32 bytes from byte 11 on, and as the session id the 32 bytes from byte
/// 44 on where they are there behind a length byte of 0x20, else 32 zeros.
pub proof fn law_verdict_on_the_bytes(data: Seq<u8>, tag: Seq<u8>, now: int)
    requires
        tag.len() == 32,
    ensures
        verdict_on(data, tag, now) is Some <==> {
            &&& data.len() >= 43
            &&& data[0] == 0x16
            &&& data[5] == 0x01
            &&& forall|i: int| 0 <= i < 28 ==> data[11 + i] == #[trigger] tag[i]
            &&& -120 <= now - hidden_time(data, tag) <= 120
        },
        verdict_on(data, tag, now) matches Some(said) ==> {
            &&& said.timestamp == hidden_time(data, tag)
            &&& said.client_random == data.subrange(11, 43)
            &&& data.len() >= 76 && data[43] == 0x20 ==> said.session_id == data.subrange(44, 76)
            &&& !(data.len() >= 76 && data[43] == 0x20) ==> said.session_id == Seq::new(
                32,
                |i: int| 0u8,
            )
        },
{
    if data.len() >= 43 {
        let random = random_of(data);
        assert(masked_timestamp(random, tag) == hidden_time(data, tag));
        if forall|i: int| 0 <= i < 28 ==> data[11 + i] == #[trigger] tag[i] {
            assert(random.take(28) =~= tag.take(28));
        }
        if random.take(28) == tag.take(28) {
            assert forall|i: int| 0 <= i < 28 implies data[11 + i] == #[trigger] tag[i] by {
                assert(random.take(28)[i] == tag.take(28)[i]);
            }
        }
        assert(zeros(32) =~= Seq::new(32, |i: int| 0u8));
    }
}

/// Whether `blank` is `data` with the bytes 11 to 42 zeroed.
pub open spec fn is_blank_of(blank: Seq<u8>, data: Seq<u8>) -> bool {
    &&& blank.len() == data.len()
    &&& forall|i: int|
        0 <= i < data.len() ==> #[trigger] blank[i] == (if 11 <= i < 43 {
            0u8
        } else {
            data[i]
        })
}

/// The tag expected of a hello is the HMAC-SHA-256 tag, under the secret, of the whole hello
/// with its client random zeroed, byte for byte.
pub proof fn law_tag_covers_the_whole_hello(data: Seq<u8>, blank: Seq<u8>, secret: Seq<u8>)
    requires
        data.len() >= 43,
        is_blank_of(blank, data),
    ensures
        expected_tag(data, secret) == hmac_sha256_tag(secret, blank)@,
{
    assert(blanked(data) =~= blank);
}

/// The view of a verdict holds each of its parts unchanged.
pub proof fn law_verdict_view_is_faithful(said: TlsVerifyOk)
    ensures
        verdict_view(None) is None,
        verdict_view(Some(said)) matches Some(seen) && seen.client_random == said.client_random@
            && seen.session_id == said.session_id@ && seen.timestamp == said.timestamp,
{
}

/// The server's answer, byte by byte, for any random, session id, key share and filler.
pub proof fn law_answer_on_the_bytes(
    random: Seq<u8>,
    session_id: Seq<u8>,
    pubkey: Seq<u8>,
    filler: Seq<u8>,
)
    requires
        random.len() == 32,
        session_id.len() == 32,
        pubkey.len() == 32,
        filler.len() <= 65535,
    ensures
        ({
            let answer = server_flight(random, session_id, pubkey, filler);
            &&& answer.len() == 138 + filler.len()
            &&& answer.subrange(0, 11) == seq![
                0x16u8,
                0x03,
                0x03,
                0x00,
                0x7a,
                0x02,
                0x00,
                0x00,
                0x76,
                0x03,
                0x03,
            ]
            &&& answer.subrange(11, 43) == random
            &&& answer[43] == 0x20
            &&& answer.subrange(44, 76) == session_id
            &&& answer.subrange(76, 89) == seq![
                0x13u8,
                0x01,
                0x00,
                0x00,
                0x2e,
                0x00,
                0x33,
                0x00,
                0x24,
                0x00,
                0x1d,
                0x00,
                0x20,
            ]
            &&& answer.subrange(89, 121) == pubkey
            &&& answer.subrange(121, 127) == seq![0x00u8, 0x2b, 0x00, 0x02, 0x03, 0x04]
            &&& answer.subrange(127, 133) == seq![0x14u8, 0x03, 0x03, 0x00, 0x01, 0x01]
            &&& answer.subrange(133, 136) == seq![0x17u8, 0x03, 0x03]
            &&& answer[136] * 256 + answer[137] == filler.len()
            &&& answer.skip(138) == filler
        }),
        is_blank_of(
            unsealed_flight(session_id, pubkey, filler),
            server_flight(random, session_id, pubkey, filler),
        ),
{
    let answer = server_flight(random, session_id, pubkey, filler);
    let message = server_hello_message(random, session_id, pubkey);
    assert(message.len() == 122);
    let hello = record(TLS_RECORD_HANDSHAKE, message);
    let ccs = record(TLS_RECORD_CCS, seq![0x01u8]);
    let tail = record(TLS_RECORD_APPDATA, filler);
    assert(answer == hello + ccs + tail);
    assert(hello.len() == 127);
    assert(ccs =~= seq![0x14u8, 0x03, 0x03, 0x00, 0x01, 0x01]);
    assert(answer.subrange(0, 11) =~= seq![
        0x16u8,
        0x03,
        0x03,
        0x00,
        0x7a,
        0x02,
        0x00,
        0x00,
        0x76,
        0x03,
        0x03,
    ]);
    assert(answer.subrange(11, 43) =~= random);
    assert(answer.subrange(44, 76) =~= session_id);
    assert(answer.subrange(76, 89) =~= seq![
        0x13u8,
        0x01,
        0x00,
        0x00,
        0x2e,
        0x00,
        0x33,
        0x00,
        0x24,
        0x00,
        0x1d,
        0x00,
        0x20,
    ]);
    assert(answer.subrange(89, 121) =~= pubkey);
    assert(answer.subrange(121, 127) =~= seq![0x00u8, 0x2b, 0x00, 0x02, 0x03, 0x04]);
    assert(answer.subrange(127, 133) =~= ccs);
    assert(answer.subrange(133, 136) =~= seq![0x17u8, 0x03, 0x03]);
    assert(answer[136] == tail[3]);
    assert(answer[137] == tail[4]);
    assert(answer.skip(138) =~= filler);
    lemma_flight_random(random, session_id, pubkey, filler, zeros(32));
    let blank = unsealed_flight(session_id, pubkey, filler);
    assert forall|i: int| 0 <= i < answer.len() implies #[trigger] blank[i] == (if 11 <= i < 43 {
        0u8
    } else {
        answer[i]
    }) by {
        assert(blank == answer.take(11) + zeros(32) + answer.skip(43));
    }
}

/// The server random of an answer is the HMAC-SHA-256 tag, under the secret, of the client
/// random and the whole answer with those 32 bytes zeroed, byte for byte.
pub proof fn law_server_random_covers_the_whole_answer(
    secret: Seq<u8>,
    client_random: Seq<u8>,
    session_id: Seq<u8>,
    pubkey: Seq<u8>,
    filler: Seq<u8>,
    random: Seq<u8>,
    blank: Seq<u8>,
)
    requires
        random.len() == 32,
        session_id.len() == 32,
        pubkey.len() == 32,
        filler.len() <= 65535,
        is_blank_of(blank, server_flight(random, session_id, pubkey, filler)),
    ensures
        server_random(secret, client_random, session_id, pubkey, filler) == hmac_sha256_tag(
            secret,
            client_random + blank,
        )@,
{
    law_answer_on_the_bytes(random, session_id, pubkey, filler);
    assert(unsealed_flight(session_id, pubkey, filler) =~= blank);
}

/// Every answer to a hello, byte by byte: a server hello that echoes the session id and carries
/// some key share, a change-cipher-spec record, and between 1900 and 2100 bytes of application
/// data. Its random is the tag of the client random and the answer with the random zeroed.
pub proof fn law_built_answer_on_the_bytes(
    answer: Seq<u8>,
    blank: Seq<u8>,
    secret: Seq<u8>,
    client_random: Seq<u8>,
    session_id: Seq<u8>,
)
    requires
        answers_hello(answer, secret, client_random, session_id),
        session_id.len() == 32,
        is_blank_of(blank, answer),
    ensures
        2038 <= answer.len() <= 2238,
        answer.subrange(0, 11) == seq![
            0x16u8,
            0x03,
            0x03,
            0x00,
            0x7a,
            0x02,
            0x00,
            0x00,
            0x76,
            0x03,
            0x03,
        ],
        answer.subrange(11, 43) == hmac_sha256_tag(secret, client_random + blank)@,
        answer[43] == 0x20,
        answer.subrange(44, 76) == session_id,
        answer.subrange(76, 89) == seq![
            0x13u8,
            0x01,
            0x00,
            0x00,
            0x2e,
            0x00,
            0x33,
            0x00,
            0x24,
            0x00,
            0x1d,
            0x00,
            0x20,
        ],
        answer.subrange(121, 127) == seq![0x00u8, 0x2b, 0x00, 0x02, 0x03, 0x04],
        answer.subrange(127, 133) == seq![0x14u8, 0x03, 0x03, 0x00, 0x01, 0x01],
        answer.subrange(133, 136) == seq![0x17u8, 0x03, 0x03],
        answer[136] * 256 + answer[137] == answer.len() - 138,
{
    let (pubkey, filler) = choose|pubkey: Seq<u8>, filler: Seq<u8>|
        is_sealed_flight(answer, secret, client_random, session_id, pubkey, filler);
    let random = server_random(secret, client_random, session_id, pubkey, filler);
    law_answer_on_the_bytes(random, session_id, pubkey, filler);
    law_server_random_covers_the_whole_answer(
        secret,
        client_random,
        session_id,
        pubkey,
        filler,
        random,
        blank,
    );
}

/// Any key share and any filler of 1900 to 2100 bytes make an answer.
pub proof fn law_every_draw_makes_an_answer(
    secret: Seq<u8>,
    client_random: Seq<u8>,
    session_id: Seq<u8>,
    pubkey: Seq<u8>,
    filler: Seq<u8>,
)
    requires
        pubkey.len() == 32,
        1900 <= filler.len() <= 2100,
    ensures
        answers_hello(
            server_flight(
                server_random(secret, client_random, session_id, pubkey, filler),
                session_id,
                pubkey,
                filler,
            ),
            secret,
            client_random,
            session_id,
        ),
{
    let answer = server_flight(
        server_random(secret, client_random, session_id, pubkey, filler),
        session_id,
        pubkey,
        filler,
    );
    assert(is_sealed_flight(answer, secret, client_random, session_id, pubkey, filler));
}

} // verus!
