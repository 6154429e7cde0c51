//! The proxy's settings and the rules by which they change.

use vstd::prelude::*;
#[allow(unused_imports)]
use vstd::utf8::{encode_utf8, is_ascii_chars, is_ascii_chars_encode_utf8};

#[allow(unused_imports)]
use crate::external::{hex_bytes, hex_decode, is_hex, is_hex_digit};

verus! {

/// The smallest connection pool.
pub const POOL_SIZE_MIN: i32 = 2;

/// The largest connection pool.
pub const POOL_SIZE_MAX: i32 = 16;

/// Bytes of a secret's hexadecimal text.
pub const SECRET_TEXT_LEN: usize = 32;

/// What the proxy runs with: the size of its connection pool, and its MTProto secret as
/// hexadecimal text.
#[derive(Debug)]
pub struct Settings {
    pub pool_size: i32,
    pub secret: String,
}

/// [`Settings`] over character sequences.
pub struct SettingsView {
    pub pool_size: i32,
    pub secret: Seq<char>,
}

impl View for Settings {
    type V = SettingsView;

    open spec fn view(&self) -> SettingsView {
        SettingsView { pool_size: self.pool_size, secret: self.secret@ }
    }
}

/// `size`, or the nearest size that a pool may have.
pub open spec fn pool_size_for(size: i32) -> i32 {
    if size < POOL_SIZE_MIN {
        POOL_SIZE_MIN
    } else if size > POOL_SIZE_MAX {
        POOL_SIZE_MAX
    } else {
        size
    }
}

/// Sets the size of the connection pool, which is kept between [`POOL_SIZE_MIN`] and
/// [`POOL_SIZE_MAX`].
pub fn set_pool_size(settings: &mut Settings, size: i32)
    ensures
        final(settings)@ == (SettingsView { pool_size: pool_size_for(size), ..old(settings)@ }),
        final(settings).secret@ == old(settings).secret@,
        2 <= final(settings).pool_size <= 16,
        2 <= size <= 16 ==> final(settings).pool_size == size,
{
    let mut n: i32 = size;
    if n < POOL_SIZE_MIN {
        n = POOL_SIZE_MIN;
    }
    if n > POOL_SIZE_MAX {
        n = POOL_SIZE_MAX;
    }
    settings.pool_size = n;
}

/// What is wrong with a secret, if anything: its text must be 32 bytes, all of them
/// hexadecimal digits.
pub open spec fn secret_fault(secret: Seq<char>) -> Option<Seq<char>> {
    if encode_utf8(secret).len() != SECRET_TEXT_LEN {
        Some("the secret is too short"@)
    } else if !is_hex(encode_utf8(secret)) {
        Some("invalid secret"@)
    } else {
        None
    }
}

/// Sets the secret, if its text is 32 hexadecimal digits. Otherwise nothing changes and the
/// fault is told.
pub fn set_secret(settings: &mut Settings, secret: String) -> (done: Result<(), String>)
    ensures
        match done {
            Ok(_) => secret_fault(secret@) is None && final(settings)@ == (SettingsView {
                secret: secret@,
                ..old(settings)@
            }),
            Err(fault) => secret_fault(secret@) == Some(fault@) && final(settings)@ == old(
                settings,
            )@,
        },
        final(settings).pool_size == old(settings).pool_size,
        final(settings).secret@ == (if done is Ok {
            secret@
        } else {
            old(settings).secret@
        }),
{
    if secret.as_str().as_bytes().len() != SECRET_TEXT_LEN {
        return Err("the secret is too short".to_string());
    }
    match hex_decode(secret.as_str()) {
        Ok(_) => {
            settings.secret = secret;
            Ok(())
        },
        Err(_) => Err("invalid secret".to_string()),
    }
}

/// The bytes that the secret's hexadecimal text stands for, if it is such a text.
pub fn secret_bytes(settings: &Settings) -> (bytes: Option<Vec<u8>>)
    ensures
        match bytes {
            Some(bytes) => is_hex(encode_utf8(settings.secret@)) && bytes@ == hex_bytes(
                encode_utf8(settings.secret@),
            ),
            None => !is_hex(encode_utf8(settings.secret@)),
        },
{
    match hex_decode(settings.secret.as_str()) {
        Ok(bytes) => Some(bytes),
        Err(_) => None,
    }
}

/// The Cloudflare side of the proxy. `P` is how the caller writes a path.
#[derive(Debug)]
pub struct CfProxyConfig<P> {
    /// Whether all connections go through Cloudflare.
    pub enabled: bool,
    /// Where the domain list is cached.
    pub cache_dir: P,
    /// The user's own domain, or nothing.
    pub user_domain: String,
    /// The domains to choose from.
    pub domains: Vec<String>,
    /// The domain in use.
    pub active: String,
}

/// Sets where the domain list is cached.
pub fn set_cf_proxy_cache_dir<P>(config: &mut CfProxyConfig<P>, cache_dir: P)
    ensures
        *final(config) == (CfProxyConfig::<P> { cache_dir, ..*old(config) }),
{
    config.cache_dir = cache_dir;
}

/// Switches the Cloudflare side on or off and sets the user's own domain. A domain that is not
/// empty becomes the only one to choose from and the one in use; an empty one leaves both as
/// they were.
pub fn set_cf_proxy_config<P>(config: &mut CfProxyConfig<P>, enabled: bool, user_domain: String)
    ensures
        final(config).enabled == enabled,
        final(config).cache_dir == old(config).cache_dir,
        final(config).user_domain@ == user_domain@,
        user_domain@.len() == 0 ==> final(config).domains == old(config).domains
            && final(config).active == old(config).active,
        user_domain@.len() > 0 ==> final(config).domains@.len() == 1 && final(config).domains@[0]@
            == user_domain@ && final(config).active@ == user_domain@,
{
    config.enabled = enabled;
    config.user_domain = user_domain.clone();
    if !user_domain.as_str().is_empty() {
        let mut domains: Vec<String> = Vec::new();
        domains.push(user_domain.clone());
        config.domains = domains;
        config.active = user_domain;
    }
}

/// Whatever size is asked for, the pool's size stays between the limits; a size between the
/// limits is taken as it is, and asking again for what was taken changes nothing.
pub proof fn law_pool_size_stays_in_range(size: i32)
    ensures
        POOL_SIZE_MIN <= pool_size_for(size) <= POOL_SIZE_MAX,
        POOL_SIZE_MIN <= size <= POOL_SIZE_MAX ==> pool_size_for(size) == size,
        pool_size_for(pool_size_for(size)) == pool_size_for(size),
{
}

/// A character whose UTF-8 form begins with a byte below 0x80 is ASCII.
proof fn lemma_low_first_byte(c: u32)
    requires
        vstd::utf8::is_scalar(c),
        vstd::utf8::encode_scalar(c)[0] < 0x80,
    ensures
        c < 0x80,
{
    assert(vstd::utf8::has_width_2_encoding(c) ==> vstd::utf8::leading_byte_width_2(c) >= 0x80)
        by (bit_vector);
    assert(vstd::utf8::has_width_3_encoding(c) ==> vstd::utf8::leading_byte_width_3(c) >= 0x80)
        by (bit_vector);
    assert(vstd::utf8::has_width_4_encoding(c) ==> vstd::utf8::leading_byte_width_4(c) >= 0x80)
        by (bit_vector);
}

/// A text whose UTF-8 bytes are all below 0x80 is ASCII.
proof fn lemma_low_bytes_are_ascii(chars: Seq<char>)
    requires
        forall|i: int|
            0 <= i < encode_utf8(chars).len() ==> #[trigger] encode_utf8(chars)[i] < 0x80,
    ensures
        is_ascii_chars(chars),
    decreases chars.len(),
{
    if chars.len() > 0 {
        let first = vstd::utf8::encode_scalar(chars[0] as u32);
        let rest = encode_utf8(chars.drop_first());
        assert(encode_utf8(chars) == first + rest);
        vstd::utf8::char_is_scalar(chars[0]);
        assert(first.len() > 0);
        assert(encode_utf8(chars)[0] == first[0]);
        lemma_low_first_byte(chars[0] as u32);
        vstd::utf8::char_u32_cast(chars[0], chars[0] as u32);
        assert forall|i: int| 0 <= i < rest.len() implies #[trigger] rest[i] < 0x80 by {
            assert(encode_utf8(chars)[first.len() + i] == rest[i]);
        }
        lemma_low_bytes_are_ascii(chars.drop_first());
        assert forall|i: int| 0 <= i < chars.len() implies '\0' <= #[trigger] chars[i]
            <= '\u{7f}' by {
            if i > 0 {
                assert(chars.drop_first()[i - 1] == chars[i]);
            }
        }
    }
}

/// A secret is taken exactly where it is 32 characters, each a hexadecimal digit of either
/// case. It then stands for 16 bytes.
pub proof fn law_secret_is_32_hex_digits(secret: Seq<char>)
    ensures
        secret_fault(secret) is None <==> secret.len() == 32 && forall|i: int|
            0 <= i < secret.len() ==> ('0' <= #[trigger] secret[i] <= '9' || 'A' <= secret[i]
                <= 'F' || 'a' <= secret[i] <= 'f'),
        secret_fault(secret) is None ==> is_hex(encode_utf8(secret)) && hex_bytes(
            encode_utf8(secret),
        ).len() == 16,
{
    let bytes = encode_utf8(secret);
    if secret_fault(secret) is None {
        assert forall|i: int| 0 <= i < bytes.len() implies #[trigger] bytes[i] < 0x80 by {
            assert(is_hex_digit(bytes[i]));
        }
        lemma_low_bytes_are_ascii(secret);
        is_ascii_chars_encode_utf8(secret);
        assert forall|i: int| 0 <= i < secret.len() implies '0' <= #[trigger] secret[i] <= '9'
            || 'A' <= secret[i] <= 'F' || 'a' <= secret[i] <= 'f' by {
            assert(is_hex_digit(bytes[i]));
        }
    }
    if secret.len() == 32 && forall|i: int|
        0 <= i < secret.len() ==> ('0' <= #[trigger] secret[i] <= '9' || 'A' <= secret[i] <= 'F'
            || 'a' <= secret[i] <= 'f') {
        assert(is_ascii_chars(secret));
        is_ascii_chars_encode_utf8(secret);
        assert forall|i: int| 0 <= i < bytes.len() implies is_hex_digit(#[trigger] bytes[i]) by {
            assert(secret[i] as u8 == bytes[i]);
        }
    }
}

/// The pool gets the size nearest to the one asked for, among 2 to 16: no size that a pool may
/// have is nearer, and a larger wish never makes a smaller pool.
pub proof fn law_pool_size_is_the_nearest(size: i32, other: i32)
    ensures
        2 <= pool_size_for(size) <= 16,
        size <= 2 ==> pool_size_for(size) == 2,
        2 <= size <= 16 ==> pool_size_for(size) == size,
        size >= 16 ==> pool_size_for(size) == 16,
        size <= other ==> pool_size_for(size) <= pool_size_for(other),
{
}

/// A refused secret is told its fault: the length, wherever its text is not 32 bytes, and
/// otherwise that it is not hexadecimal.
pub proof fn law_secret_fault_is_told(secret: Seq<char>)
    ensures
        encode_utf8(secret).len() != 32 ==> secret_fault(secret) == Some(
            "the secret is too short"@,
        ),
        encode_utf8(secret).len() == 32 && secret_fault(secret) is Some ==> secret_fault(secret)
            == Some("invalid secret"@),
{
}

/// The view of the settings holds both of them unchanged.
pub proof fn law_settings_view_is_faithful(settings: Settings)
    ensures
        settings@.pool_size == settings.pool_size,
        settings@.secret == settings.secret@,
{
}

} // verus!
