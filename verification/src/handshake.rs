//! The server's side of the disguised handshake, as decisions between reads and writes.
//!
//! The caller owns the connection. It performs the action that a step returns and hands back
//! the event that came of it, until the handshake ends in a relay, in masking or in a close.

use vstd::prelude::*;

#[allow(unused_imports)]
use crate::bytes::append;
#[allow(unused_imports)]
use crate::external::{hmac_sha256_tag, now_unix};
#[allow(unused_imports)]
use crate::hello::{
    answers_hello, authentic_hello, build_server_hello, expected_tag, hidden_time, is_blank_of,
    is_client_hello, is_fresh, law_accepted_hello_is_authentic, law_authentic_hello_is_accepted,
    law_tag_covers_the_whole_hello, law_verdict_on_the_bytes, random_of, session_id_of, verdict_on,
    verdict_view, verify_client_hello_at, TlsVerifyOk, VerifiedHello,
};
#[allow(unused_imports)]
use crate::records::{announced_len, RECORD_HEADER_LEN, TLS_RECORD_HANDSHAKE};

verus! {

/// Seconds that each read of the handshake may take.
pub const HANDSHAKE_TIMEOUT_SECS: u64 = 10;

/// What the handshake waits for.
#[derive(Debug)]
pub enum HandshakeState {
    /// The rest of the record header behind this first byte.
    Header(u8),
    /// The record body behind this header.
    Body(Vec<u8>),
    /// The answer to be written, to a hello with this timestamp.
    Answering(u32),
    /// Nothing: the handshake is over.
    Finished,
}

/// What happened since the last action of the handshake.
#[derive(Debug)]
pub enum HandshakeEvent {
    /// All the bytes that were asked for have been read, in time.
    Read(Vec<u8>),
    /// The bytes did not all come in time.
    TimedOut,
    /// The stream ended or failed before all the bytes had come.
    ReadFailed,
    /// The answer was written.
    Written,
    /// The answer could not be written.
    WriteFailed,
}

/// What the handshake wants done next.
#[derive(Debug)]
pub enum HandshakeAction {
    /// Read exactly this many bytes, within [`HANDSHAKE_TIMEOUT_SECS`].
    Read(usize),
    /// Write these bytes to the client.
    Write(Vec<u8>),
    /// Hand the connection to the masking domain, these bytes first.
    Mask(Vec<u8>),
    /// Relay the client's records.
    Relay,
    /// Drop the connection.
    Close,
}

/// [`HandshakeState`] over byte sequences.
pub enum HandshakeStateView {
    Header(u8),
    Body(Seq<u8>),
    Answering(u32),
    Finished,
}

/// [`HandshakeEvent`] over byte sequences.
pub enum HandshakeEventView {
    Read(Seq<u8>),
    TimedOut,
    ReadFailed,
    Written,
    WriteFailed,
}

/// [`HandshakeAction`] over byte sequences.
pub enum HandshakeActionView {
    Read(nat),
    Write(Seq<u8>),
    Mask(Seq<u8>),
    Relay,
    Close,
}

impl View for HandshakeState {
    type V = HandshakeStateView;

    open spec fn view(&self) -> HandshakeStateView {
        match self {
            HandshakeState::Header(first_byte) => HandshakeStateView::Header(*first_byte),
            HandshakeState::Body(header) => HandshakeStateView::Body(header@),
            HandshakeState::Answering(timestamp) => HandshakeStateView::Answering(*timestamp),
            HandshakeState::Finished => HandshakeStateView::Finished,
        }
    }
}

impl View for HandshakeEvent {
    type V = HandshakeEventView;

    open spec fn view(&self) -> HandshakeEventView {
        match self {
            HandshakeEvent::Read(bytes) => HandshakeEventView::Read(bytes@),
            HandshakeEvent::TimedOut => HandshakeEventView::TimedOut,
            HandshakeEvent::ReadFailed => HandshakeEventView::ReadFailed,
            HandshakeEvent::Written => HandshakeEventView::Written,
            HandshakeEvent::WriteFailed => HandshakeEventView::WriteFailed,
        }
    }
}

impl View for HandshakeAction {
    type V = HandshakeActionView;

    open spec fn view(&self) -> HandshakeActionView {
        match self {
            HandshakeAction::Read(len) => HandshakeActionView::Read(*len as nat),
            HandshakeAction::Write(bytes) => HandshakeActionView::Write(bytes@),
            HandshakeAction::Mask(bytes) => HandshakeActionView::Mask(bytes@),
            HandshakeAction::Relay => HandshakeActionView::Relay,
            HandshakeAction::Close => HandshakeActionView::Close,
        }
    }
}

/// A state and the action that leads on from it.
pub type Progress = (HandshakeStateView, HandshakeActionView);

/// A handshake that ends without an answer.
pub open spec fn given_up() -> Progress {
    (HandshakeStateView::Finished, HandshakeActionView::Close)
}

/// The answer to a judged hello: a refused one goes to the masking domain with every byte the
/// client sent, an accepted one gets a server hello for its random and session id.
pub open spec fn answers_verdict(
    verdict: Option<VerifiedHello>,
    hello: Seq<u8>,
    secret: Seq<u8>,
    next: Progress,
) -> bool {
    match verdict {
        None => next == (HandshakeStateView::Finished, HandshakeActionView::Mask(hello)),
        Some(said) => {
            &&& next.0 == HandshakeStateView::Answering(said.timestamp)
            &&& next.1 matches HandshakeActionView::Write(answer)
            &&& answers_hello(answer, secret, said.client_random, said.session_id)
        },
    }
}

/// Whether `next` may follow when `event` comes in `state` at the time `now`. A read of
/// another length than was asked for, and an event that the state does not wait for, end the
/// handshake.
pub open spec fn handshake_follows_at(
    state: HandshakeStateView,
    event: HandshakeEventView,
    secret: Seq<u8>,
    now: int,
    next: Progress,
) -> bool {
    match (state, event) {
        (HandshakeStateView::Header(first_byte), HandshakeEventView::Read(rest)) if rest.len()
            == 4 => {
            let header = seq![first_byte] + rest;
            next == (
                HandshakeStateView::Body(header),
                HandshakeActionView::Read(announced_len(header)),
            )
        },
        (HandshakeStateView::Body(header), HandshakeEventView::Read(body)) if header.len()
            == RECORD_HEADER_LEN && body.len() == announced_len(header) => {
            let hello = header + body;
            answers_verdict(
                verdict_on(hello, expected_tag(hello, secret), now),
                hello,
                secret,
                next,
            )
        },
        (HandshakeStateView::Answering(_), HandshakeEventView::Written) => {
            next == (HandshakeStateView::Finished, HandshakeActionView::Relay)
        },
        _ => next == given_up(),
    }
}

/// Whether `next` may follow when `event` comes in `state`, whatever time since the Unix epoch
/// the clock tells.
pub open spec fn handshake_follows(
    state: HandshakeStateView,
    event: HandshakeEventView,
    secret: Seq<u8>,
    next: Progress,
) -> bool {
    exists|now: i64|
        now >= 0 && #[trigger] handshake_follows_at(state, event, secret, now as int, next)
}

/// The handshake's first state and action, once the client's first byte is there: the four
/// bytes that complete the record header are to be read.
pub fn handshake_start(first_byte: u8) -> (next: (HandshakeState, HandshakeAction))
    ensures
        (next.0@, next.1@) == (HandshakeStateView::Header(first_byte), HandshakeActionView::Read(4)),
{
    (HandshakeState::Header(first_byte), HandshakeAction::Read(4))
}

/// Answers a judged hello.
pub fn answer_verdict(verdict: Option<TlsVerifyOk>, hello: Vec<u8>, secret: &[u8]) -> (next: (
    HandshakeState,
    HandshakeAction,
))
    ensures
        answers_verdict(verdict_view(verdict), hello@, secret@, (next.0@, next.1@)),
{
    match verdict {
        None => (HandshakeState::Finished, HandshakeAction::Mask(hello)),
        Some(said) => {
            let answer = build_server_hello(secret, &said.client_random, &said.session_id);
            (HandshakeState::Answering(said.timestamp), HandshakeAction::Write(answer))
        },
    }
}

/// One step of the handshake under `secret` at the Unix time `now`.
pub fn handshake_step_at(state: HandshakeState, event: HandshakeEvent, secret: &[u8], now: i64) -> (
    next: (HandshakeState, HandshakeAction))
    ensures
        handshake_follows_at(state@, event@, secret@, now as int, (next.0@, next.1@)),
{
    match (state, event) {
        (HandshakeState::Header(first_byte), HandshakeEvent::Read(rest)) => {
            if rest.len() == 4 {
                let len: usize = rest[2] as usize * 256 + rest[3] as usize;
                let mut header: Vec<u8> = Vec::new();
                header.push(first_byte);
                append(&mut header, rest.as_slice());
                assert(header@ =~= seq![first_byte] + rest@);
                (HandshakeState::Body(header), HandshakeAction::Read(len))
            } else {
                (HandshakeState::Finished, HandshakeAction::Close)
            }
        },
        (HandshakeState::Body(header), HandshakeEvent::Read(body)) => {
            if header.len() == RECORD_HEADER_LEN && body.len() == header[3] as usize * 256
                + header[4] as usize {
                let mut hello = header;
                append(&mut hello, body.as_slice());
                let verdict = verify_client_hello_at(hello.as_slice(), secret, now);
                answer_verdict(verdict, hello, secret)
            } else {
                (HandshakeState::Finished, HandshakeAction::Close)
            }
        },
        (HandshakeState::Answering(_), HandshakeEvent::Written) => {
            (HandshakeState::Finished, HandshakeAction::Relay)
        },
        _ => (HandshakeState::Finished, HandshakeAction::Close),
    }
}

/// One step of the handshake under `secret`, at the time that the system clock tells.
pub fn handshake_step(state: HandshakeState, event: HandshakeEvent, secret: &[u8]) -> (next: (
    HandshakeState,
    HandshakeAction,
))
    ensures
        handshake_follows(state@, event@, secret@, (next.0@, next.1@)),
{
    let ghost before = state@;
    let ghost came = event@;
    let now = now_unix();
    let next = handshake_step_at(state, event, secret, now);
    assert(handshake_follows_at(before, came, secret@, now as int, (next.0@, next.1@)));
    next
}

/// A client that fails the check is handed to the masking domain together with exactly the
/// bytes that it sent: its first byte, the rest of the header, and the body.
pub proof fn law_refused_client_is_replayed(
    first_byte: u8,
    rest: Seq<u8>,
    body: Seq<u8>,
    secret: Seq<u8>,
    after_header: Progress,
    after_body: Progress,
)
    requires
        rest.len() == 4,
        handshake_follows(
            HandshakeStateView::Header(first_byte),
            HandshakeEventView::Read(rest),
            secret,
            after_header,
        ),
        after_header.1 == HandshakeActionView::Read(body.len()),
        handshake_follows(after_header.0, HandshakeEventView::Read(body), secret, after_body),
    ensures
        after_body.1 is Mask || after_body.1 is Write,
        after_body.1 matches HandshakeActionView::Mask(sent) ==> sent == seq![first_byte] + rest
            + body,
{
    assert(seq![first_byte] + rest + body =~= (seq![first_byte] + rest) + body);
}

/// A connection that does not open with a well-formed client hello is never answered by the
/// server itself: whatever the clock tells, it goes to the masking domain.
pub proof fn law_stranger_is_masked(
    header: Seq<u8>,
    body: Seq<u8>,
    secret: Seq<u8>,
    next: Progress,
)
    requires
        header.len() == RECORD_HEADER_LEN,
        body.len() == announced_len(header),
        !is_client_hello(header + body),
        handshake_follows(
            HandshakeStateView::Body(header),
            HandshakeEventView::Read(body),
            secret,
            next,
        ),
    ensures
        next == (HandshakeStateView::Finished, HandshakeActionView::Mask(header + body)),
{
}

/// A holder of the secret whose timestamp is fresh is answered, and the answer fits what it
/// sent.
pub proof fn law_holder_is_answered(
    hello: Seq<u8>,
    secret: Seq<u8>,
    timestamp: u32,
    now: i64,
    next: Progress,
)
    requires
        is_client_hello(hello),
        is_fresh(timestamp, now as int),
        hello == authentic_hello(hello, secret, timestamp),
        hello.len() == RECORD_HEADER_LEN + announced_len(hello),
        handshake_follows_at(
            HandshakeStateView::Body(hello.take(RECORD_HEADER_LEN as int)),
            HandshakeEventView::Read(hello.skip(RECORD_HEADER_LEN as int)),
            secret,
            now as int,
            next,
        ),
    ensures
        next.0 == HandshakeStateView::Answering(timestamp),
        next.1 matches HandshakeActionView::Write(answer) && answers_hello(
            answer,
            secret,
            random_of(hello),
            session_id_of(hello),
        ),
{
    assert(hello.take(RECORD_HEADER_LEN as int) + hello.skip(RECORD_HEADER_LEN as int) =~= hello);
    law_authentic_hello_is_accepted(hello, secret, timestamp, now);
    let said = verdict_on(hello, expected_tag(hello, secret), now as int)->0;
    assert(said.client_random == random_of(hello));
}

/// Nothing follows the end of a handshake. A read that times out or fails and an answer that
/// cannot be written end it, without another byte sent to anyone.
pub proof fn law_silence_closes(
    state: HandshakeStateView,
    event: HandshakeEventView,
    secret: Seq<u8>,
    next: Progress,
)
    requires
        state is Finished || event is TimedOut || event is ReadFailed || event is WriteFailed,
        handshake_follows(state, event, secret, next),
    ensures
        next == given_up(),
{
}

/// The records of a client are relayed only once the answer to its accepted hello is written.
pub proof fn law_relay_follows_the_answer(
    state: HandshakeStateView,
    event: HandshakeEventView,
    secret: Seq<u8>,
    next: Progress,
)
    requires
        handshake_follows(state, event, secret, next),
        next.1 is Relay,
    ensures
        state is Answering,
        event is Written,
{
}

/// Only a hello that a holder of the secret could have sent is ever answered.
pub proof fn law_only_a_holder_is_answered(
    state: HandshakeStateView,
    event: HandshakeEventView,
    secret: Seq<u8>,
    next: Progress,
)
    requires
        handshake_follows(state, event, secret, next),
        next.1 is Write,
    ensures
        state is Body,
        event is Read,
        exists|timestamp: u32| #[trigger]
            authentic_hello(state->Body_0 + event->Read_0, secret, timestamp) == state->Body_0
                + event->Read_0,
{
    let now = choose|now: i64|
        now >= 0 && #[trigger] handshake_follows_at(state, event, secret, now as int, next);
    let hello = state->Body_0 + event->Read_0;
    law_accepted_hello_is_authentic(hello, secret, now);
    let said = verdict_on(hello, expected_tag(hello, secret), now as int)->0;
    assert(authentic_hello(hello, secret, said.timestamp) == hello);
}

/// What a step may lead to by the system clock is what it may lead to at some time since the
/// Unix epoch.
pub proof fn law_clock_picks_the_time(
    state: HandshakeStateView,
    event: HandshakeEventView,
    secret: Seq<u8>,
    next: Progress,
)
    ensures
        handshake_follows(state, event, secret, next) <==> exists|now: i64|
            now >= 0 && #[trigger] handshake_follows_at(state, event, secret, now as int, next),
{
}

/// Behind any first byte and any four further header bytes, exactly as many bytes are asked for
/// as the last two of them announce, the high byte first. The header is kept as it was read.
pub proof fn law_header_fixes_the_read(
    first_byte: u8,
    b1: u8,
    b2: u8,
    b3: u8,
    b4: u8,
    secret: Seq<u8>,
    now: int,
    next: Progress,
)
    requires
        handshake_follows_at(
            HandshakeStateView::Header(first_byte),
            HandshakeEventView::Read(seq![b1, b2, b3, b4]),
            secret,
            now,
            next,
        ),
    ensures
        next.0 == HandshakeStateView::Body(seq![first_byte, b1, b2, b3, b4]),
        next.1 == HandshakeActionView::Read((b3 * 256 + b4) as nat),
{
    assert(seq![first_byte] + seq![b1, b2, b3, b4] =~= seq![first_byte, b1, b2, b3, b4]);
}

/// The handshake goes on only where it got exactly what it waited for: four bytes behind the
/// first, a body as long as its header announces, or word that the answer was written. Whatever
/// else comes, in whatever state, closes the connection.
pub proof fn law_anything_else_closes(
    state: HandshakeStateView,
    event: HandshakeEventView,
    secret: Seq<u8>,
    now: int,
    next: Progress,
)
    requires
        handshake_follows_at(state, event, secret, now, next),
        match (state, event) {
            (HandshakeStateView::Header(_), HandshakeEventView::Read(rest)) => rest.len() != 4,
            (
                HandshakeStateView::Body(header),
                HandshakeEventView::Read(body),
            ) => header.len() != 5 || body.len() != header[3] * 256 + header[4],
            (HandshakeStateView::Answering(_), HandshakeEventView::Written) => false,
            _ => true,
        },
    ensures
        next.0 is Finished,
        next.1 is Close,
{
}

/// Once the answer is written the client's records are relayed, whatever the hello's timestamp.
pub proof fn law_written_answer_leads_to_the_relay(
    timestamp: u32,
    secret: Seq<u8>,
    now: int,
    next: Progress,
)
    requires
        handshake_follows_at(
            HandshakeStateView::Answering(timestamp),
            HandshakeEventView::Written,
            secret,
            now,
            next,
        ),
    ensures
        next.0 is Finished,
        next.1 is Relay,
{
}

/// Whether `hello` opens as a client hello, carries the first 28 bytes of `tag`, and hides a
/// time no more than 120 seconds from `now`.
pub open spec fn passes(hello: Seq<u8>, tag: Seq<u8>, now: int) -> bool {
    &&& hello.len() >= 43
    &&& hello[0] == 0x16
    &&& hello[5] == 0x01
    &&& forall|i: int| 0 <= i < 28 ==> hello[11 + i] == #[trigger] tag[i]
    &&& -120 <= now - hidden_time(hello, tag) <= 120
}

/// A complete record is judged by all its bytes, where `blank` is the record with the bytes 11
/// to 42 zeroed: it passes by the tag of `blank` or goes to the masking domain whole. One that
/// passes gets the answer to its own 32 random bytes and its own session id, which is 32 zeros
/// where none of 32 bytes is there.
pub proof fn law_whole_record_is_judged(
    header: Seq<u8>,
    body: Seq<u8>,
    blank: Seq<u8>,
    secret: Seq<u8>,
    now: int,
    next: Progress,
)
    requires
        header.len() == 5,
        body.len() == header[3] * 256 + header[4],
        is_blank_of(blank, header + body),
        handshake_follows_at(
            HandshakeStateView::Body(header),
            HandshakeEventView::Read(body),
            secret,
            now,
            next,
        ),
    ensures
        ({
            let hello = header + body;
            let tag = hmac_sha256_tag(secret, blank)@;
            let session_id = if hello.len() >= 76 && hello[43] == 0x20 {
                hello.subrange(44, 76)
            } else {
                Seq::new(32, |i: int| 0u8)
            };
            &&& passes(hello, tag, now) ==> {
                &&& next.0 matches HandshakeStateView::Answering(timestamp) && timestamp
                    == hidden_time(hello, tag)
                &&& next.1 matches HandshakeActionView::Write(answer) && answers_hello(
                    answer,
                    secret,
                    hello.subrange(11, 43),
                    session_id,
                )
            }
            &&& !passes(hello, tag, now) ==> next == (
                HandshakeStateView::Finished,
                HandshakeActionView::Mask(hello),
            )
        }),
{
    let hello = header + body;
    let tag = hmac_sha256_tag(secret, blank)@;
    if hello.len() >= 43 {
        law_tag_covers_the_whole_hello(hello, blank, secret);
    }
    law_verdict_on_the_bytes(hello, expected_tag(hello, secret), now);
}

/// A whole run, for a record of any length: the handshake reads the first byte, four bytes
/// more, and then exactly the rest. A hello that passes is answered, and its records are
/// relayed once the answer is written; any other is handed on byte for byte.
pub proof fn law_run_over_a_record(
    hello: Seq<u8>,
    blank: Seq<u8>,
    secret: Seq<u8>,
    now: int,
    after_header: Progress,
    after_body: Progress,
    after_answer: Progress,
)
    requires
        hello.len() >= 5,
        hello.len() == 5 + hello[3] * 256 + hello[4],
        is_blank_of(blank, hello),
        handshake_follows_at(
            HandshakeStateView::Header(hello[0]),
            HandshakeEventView::Read(hello.subrange(1, 5)),
            secret,
            now,
            after_header,
        ),
        after_header.1 matches HandshakeActionView::Read(n) ==> handshake_follows_at(
            after_header.0,
            HandshakeEventView::Read(hello.subrange(5, 5 + n as int)),
            secret,
            now,
            after_body,
        ),
        handshake_follows_at(
            after_body.0,
            HandshakeEventView::Written,
            secret,
            now,
            after_answer,
        ),
    ensures
        after_header.1 == HandshakeActionView::Read((hello.len() - 5) as nat),
        passes(hello, hmac_sha256_tag(secret, blank)@, now) ==> after_body.1 is Write
            && after_answer.1 is Relay,
        !passes(hello, hmac_sha256_tag(secret, blank)@, now) ==> after_body.1
            == HandshakeActionView::Mask(hello) && after_answer.1 is Close,
{
    let rest = hello.subrange(1, 5);
    let header = hello.subrange(0, 5);
    let body = hello.subrange(5, hello.len() as int);
    assert(rest =~= seq![hello[1], hello[2], hello[3], hello[4]]);
    law_header_fixes_the_read(
        hello[0],
        hello[1],
        hello[2],
        hello[3],
        hello[4],
        secret,
        now,
        after_header,
    );
    assert(header =~= seq![hello[0], hello[1], hello[2], hello[3], hello[4]]);
    assert(header + body =~= hello);
    law_whole_record_is_judged(header, body, blank, secret, now, after_body);
}

/// A verdict is answered as it says: a refused hello goes to the masking domain byte for byte,
/// an accepted one gets the answer to the random and the session id in the verdict.
pub proof fn law_verdict_is_answered(
    said: VerifiedHello,
    hello: Seq<u8>,
    secret: Seq<u8>,
    next: Progress,
)
    ensures
        answers_verdict(None, hello, secret, next) <==> next.0 is Finished && next.1
            == HandshakeActionView::Mask(hello),
        answers_verdict(Some(said), hello, secret, next) <==> next.0
            == HandshakeStateView::Answering(said.timestamp) && (
        next.1 matches HandshakeActionView::Write(answer) && answers_hello(
            answer,
            secret,
            said.client_random,
            said.session_id,
        )),
{
}

/// The views of states, events and actions hold their bytes and numbers unchanged.
pub proof fn law_handshake_views_are_faithful(
    bytes: Vec<u8>,
    len: usize,
    byte: u8,
    timestamp: u32,
)
    ensures
        HandshakeState::Header(byte)@ == HandshakeStateView::Header(byte),
        HandshakeState::Body(bytes)@ == HandshakeStateView::Body(bytes@),
        HandshakeState::Answering(timestamp)@ == HandshakeStateView::Answering(timestamp),
        HandshakeState::Finished@ is Finished,
        HandshakeEvent::Read(bytes)@ == HandshakeEventView::Read(bytes@),
        HandshakeEvent::TimedOut@ is TimedOut,
        HandshakeEvent::ReadFailed@ is ReadFailed,
        HandshakeEvent::Written@ is Written,
        HandshakeEvent::WriteFailed@ is WriteFailed,
        HandshakeAction::Read(len)@ == HandshakeActionView::Read(len as nat),
        HandshakeAction::Write(bytes)@ == HandshakeActionView::Write(bytes@),
        HandshakeAction::Mask(bytes)@ == HandshakeActionView::Mask(bytes@),
        HandshakeAction::Relay@ is Relay,
        HandshakeAction::Close@ is Close,
{
}

/// Each read of the handshake gets ten seconds.
pub proof fn law_handshake_reads_get_ten_seconds()
    ensures
        HANDSHAKE_TIMEOUT_SECS == 10,
{
}

} // verus!
