//! The calls into other crates and into the system clock. Their contracts are taken on trust;
//! everything else in the library is proved.

use hmac::Mac;
use rand::{Rng, RngCore};
use vstd::prelude::*;
#[allow(unused_imports)]
use vstd::utf8::encode_utf8;

verus! {

/// The HMAC-SHA-256 tag of `message` under `key`.
pub uninterp spec fn hmac_sha256_tag(key: Seq<u8>, message: Seq<u8>) -> [u8; 32];

/// Calls `hmac::Hmac::<sha2::Sha256>`: keyed with `key`, fed `message`, finalized. Trusted: the
/// tag has 32 bytes and is a function of key and message alone. A key of any length is taken,
/// so the construction never fails.
#[verifier::external_body]
pub(crate) fn hmac_sha256(key: &[u8], message: &[u8]) -> (tag: [u8; 32])
    ensures
        tag == hmac_sha256_tag(key@, message@),
{
    let mut mac = hmac::Hmac::<sha2::Sha256>::new_from_slice(key)
        .expect("HMAC takes a key of any length");
    mac.update(message);
    mac.finalize().into_bytes().into()
}

/// Calls `rand::RngCore::fill_bytes` on `rand::thread_rng()`. Trusted: the buffer keeps its
/// length. Nothing is said of the bytes, which are random.
#[verifier::external_body]
pub(crate) fn fill_random(buffer: &mut Vec<u8>)
    ensures
        final(buffer)@.len() == old(buffer)@.len(),
{
    rand::thread_rng().fill_bytes(buffer);
}

/// Calls `rand::Rng::gen_range` on `rand::thread_rng()` with the range `low..=high`. Trusted:
/// the result lies in that range. Which value it is, is random.
#[verifier::external_body]
pub(crate) fn random_between(low: usize, high: usize) -> (chosen: usize)
    requires
        low <= high,
    ensures
        low <= chosen <= high,
{
    rand::thread_rng().gen_range(low..=high)
}

/// A moment as the system clock tells it.
#[verifier::external_type_specification]
#[verifier::external_body]
pub struct ExSystemTime(std::time::SystemTime);

/// The error of a clock that stands before the Unix epoch.
#[verifier::external_type_specification]
#[verifier::external_body]
pub struct ExSystemTimeError(std::time::SystemTimeError);

/// `std::time::SystemTime::now`: the system clock. Nothing is said of what it tells.
pub assume_specification[ std::time::SystemTime::now ]() -> std::time::SystemTime
;

/// Calls `std::time::SystemTime::duration_since` with the Unix epoch. Nothing is said of the
/// result, which depends on the clock.
#[verifier::external_body]
fn since_epoch(moment: std::time::SystemTime) -> (elapsed: Result<
    std::time::Duration,
    std::time::SystemTimeError,
>) {
    moment.duration_since(std::time::UNIX_EPOCH)
}

/// `std::time::Duration::as_secs`: the whole seconds. Nothing is said of how many they are.
pub assume_specification[ std::time::Duration::as_secs ](elapsed: &std::time::Duration) -> u64
;

/// The Unix time for what the clock told: the whole seconds since the epoch as far as an `i64`
/// holds them, and 0 where the clock stands before the epoch (`None`).
pub open spec fn unix_time(elapsed: Option<u64>) -> i64 {
    match elapsed {
        Some(secs) if secs <= i64::MAX => secs as i64,
        Some(_) => i64::MAX,
        None => 0,
    }
}

/// The Unix time for what the clock told.
pub fn unix_seconds(elapsed: Option<u64>) -> (now: i64)
    ensures
        now == unix_time(elapsed),
        elapsed is None ==> now == 0,
        elapsed matches Some(secs) ==> now == (if secs <= i64::MAX {
            secs as int
        } else {
            i64::MAX as int
        }),
{
    match elapsed {
        Some(secs) => {
            if secs <= i64::MAX as u64 {
                secs as i64
            } else {
                i64::MAX
            }
        },
        None => 0,
    }
}

/// The current Unix time in seconds, for what the system clock tells. It is never negative.
pub(crate) fn now_unix() -> (now: i64)
    ensures
        exists|elapsed: Option<u64>| now == #[trigger] unix_time(elapsed),
        now >= 0,
{
    let elapsed: Option<u64> = match since_epoch(std::time::SystemTime::now()) {
        Ok(elapsed) => Some(elapsed.as_secs()),
        Err(_) => None,
    };
    unix_seconds(elapsed)
}

/// Whether a byte is an ASCII hexadecimal digit, of either case.
pub open spec fn is_hex_digit(byte: u8) -> bool {
    0x30 <= byte <= 0x39 || 0x41 <= byte <= 0x46 || 0x61 <= byte <= 0x66
}

/// The value of an ASCII hexadecimal digit.
pub open spec fn hex_value(byte: u8) -> u8 {
    if byte <= 0x39 {
        (byte - 0x30) as u8
    } else if byte <= 0x46 {
        (byte - 0x41 + 10) as u8
    } else {
        (byte - 0x61 + 10) as u8
    }
}

/// Whether a text is an even number of hexadecimal digits and nothing else.
pub open spec fn is_hex(text: Seq<u8>) -> bool {
    &&& text.len() % 2 == 0
    &&& forall|i: int| 0 <= i < text.len() ==> is_hex_digit(#[trigger] text[i])
}

/// The bytes that pairs of hexadecimal digits stand for, the high digit first.
pub open spec fn hex_bytes(text: Seq<u8>) -> Seq<u8> {
    Seq::new(
        text.len() / 2,
        |i: int| (hex_value(text[2 * i]) * 16 + hex_value(text[2 * i + 1])) as u8,
    )
}

/// Why a text is not hexadecimal.
#[verifier::external_type_specification]
#[verifier::external_body]
pub struct ExFromHexError(hex::FromHexError);

/// Calls `hex::decode` on the UTF-8 bytes of `text`. Trusted: it succeeds exactly on an even
/// number of hexadecimal digits of either case, and then gives the bytes that the pairs of
/// digits stand for. Which error it gives otherwise is left unsaid.
#[verifier::external_body]
pub(crate) fn hex_decode(text: &str) -> (decoded: Result<Vec<u8>, hex::FromHexError>)
    ensures
        match decoded {
            Ok(bytes) => is_hex(encode_utf8(text@)) && bytes@ == hex_bytes(encode_utf8(text@)),
            Err(_) => !is_hex(encode_utf8(text@)),
        },
{
    hex::decode(text)
}

/// Writing bytes out in hexadecimal, each as its high digit and then its low one, and reading
/// them again gives the bytes back, whichever case each letter is written in.
pub proof fn law_hex_reads_back(bytes: Seq<u8>, text: Seq<u8>)
    requires
        text.len() == 2 * bytes.len(),
        forall|i: int|
            0 <= i < bytes.len() ==> {
                &&& spells_digit(text[2 * i], #[trigger] bytes[i] as int / 16)
                &&& spells_digit(text[2 * i + 1], bytes[i] as int % 16)
            },
    ensures
        is_hex(text),
        hex_bytes(text) == bytes,
{
    assert forall|k: int| 0 <= k < text.len() implies is_hex_digit(#[trigger] text[k]) by {
        let i = k / 2;
        assert(0 <= bytes[i]);
        assert(k == 2 * i || k == 2 * i + 1);
    }
    assert(hex_bytes(text) =~= bytes);
}

/// Whether `byte` is the ASCII hexadecimal digit for `value`, in either case.
pub open spec fn spells_digit(byte: u8, value: int) -> bool {
    if value < 10 {
        byte == 0x30 + value
    } else {
        byte == 0x41 + (value - 10) || byte == 0x61 + (value - 10)
    }
}

/// Only an even number of the characters 0 to 9, A to F and a to f is hexadecimal, and every two
/// of them stand for one byte.
pub proof fn law_hex_is_digits(text: Seq<u8>)
    ensures
        is_hex(text) <==> text.len() % 2 == 0 && forall|i: int|
            0 <= i < text.len() ==> (0x30 <= #[trigger] text[i] <= 0x39 || 0x41 <= text[i] <= 0x46
                || 0x61 <= text[i] <= 0x66),
        is_hex(text) ==> hex_bytes(text).len() * 2 == text.len(),
{
    if text.len() % 2 == 0 && forall|i: int|
        0 <= i < text.len() ==> (0x30 <= #[trigger] text[i] <= 0x39 || 0x41 <= text[i] <= 0x46
            || 0x61 <= text[i] <= 0x66) {
        assert forall|i: int| 0 <= i < text.len() implies is_hex_digit(#[trigger] text[i]) by {}
    }
    if is_hex(text) {
        assert forall|i: int| 0 <= i < text.len() implies (0x30 <= #[trigger] text[i] <= 0x39
            || 0x41 <= text[i] <= 0x46 || 0x61 <= text[i] <= 0x66) by {
            assert(is_hex_digit(text[i]));
        }
    }
}

/// A clock that stands before the epoch counts as the epoch, and a time that an `i64` holds is
/// told as it is. Times are told in order, and none is told as a negative one.
pub proof fn law_unix_time_is_the_clock(secs: u64, later: u64)
    requires
        secs <= later,
    ensures
        unix_time(None) == 0,
        secs <= 0x7fff_ffff_ffff_ffff ==> unix_time(Some(secs)) == secs,
        secs >= 0x7fff_ffff_ffff_ffff ==> unix_time(Some(secs)) == 0x7fff_ffff_ffff_ffff,
        0 <= unix_time(Some(secs)) <= unix_time(Some(later)),
{
}

} // verus!
