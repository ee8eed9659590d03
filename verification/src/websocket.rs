//! The key of a WebSocket handshake: 16 random bytes in standard Base64.

use vstd::prelude::*;
use base64::Engine;
use rand::Rng;

verus! {

/// The Base64 digit for `v < 64` in the standard alphabet.
pub open spec fn base64_digit(v: int) -> char {
    if v < 26 {
        (65 + v) as char
    } else if v < 52 {
        (97 + v - 26) as char
    } else if v < 62 {
        (48 + v - 52) as char
    } else if v == 62 {
        '+'
    } else {
        '/'
    }
}

/// Standard Base64 with padding (RFC 4648, section 4): each three bytes become four
/// digits; a final one or two bytes become two or three digits and `=` padding.
pub open spec fn base64(b: Seq<u8>) -> Seq<char>
    decreases b.len(),
{
    if b.len() == 0 {
        Seq::empty()
    } else if b.len() == 1 {
        seq![base64_digit(b[0] as int / 4), base64_digit((b[0] as int % 4) * 16), '=', '=']
    } else if b.len() == 2 {
        seq![base64_digit(b[0] as int / 4), base64_digit((b[0] as int % 4) * 16 + b[1] as int / 16), base64_digit((b[1] as int % 16) * 4), '=']
    } else {
        seq![
            base64_digit(b[0] as int / 4),
            base64_digit((b[0] as int % 4) * 16 + b[1] as int / 16),
            base64_digit((b[1] as int % 16) * 4 + b[2] as int / 64),
            base64_digit(b[2] as int % 64),
        ] + base64(b.subrange(3, b.len() as int))
    }
}

/// Encodes `bytes` with the `base64` crate's standard engine (standard alphabet, with
/// padding), which its documentation gives as RFC 4648 Base64.
#[verifier::external_body]
fn base64_encode(bytes: &[u8]) -> (r: String)
    ensures
        r@ == base64(bytes@),
{
    base64::engine::general_purpose::STANDARD.encode(bytes)
}

/// 16 bytes from the thread's random number generator. Nothing is known of them.
#[verifier::external_body]
fn random_key_bytes() -> (r: [u8; 16]) {
    let mut key = [0u8; 16];
    rand::rng().fill(&mut key);
    key
}

/// The handshake key for the 16 bytes `key`: their Base64 text.
pub fn websocket_key_from_bytes(key: &[u8; 16]) -> (r: String)
    ensures
        r@ == base64(key@),
        r@.len() == 24,
{
    proof {
        law_base64_length(key@);
    }
    base64_encode(key.as_slice())
}

/// A fresh handshake key: 16 random bytes in Base64, 24 characters.
pub fn generate_websocket_key() -> (r: String)
    ensures
        exists|b: Seq<u8>| b.len() == 16 && r@ == base64(b),
        r@.len() == 24,
{
    let key = random_key_bytes();
    websocket_key_from_bytes(&key)
}

/// Base64 text takes four characters for every three bytes begun.
pub proof fn law_base64_length(b: Seq<u8>)
    ensures
        base64(b).len() == 4 * ((b.len() + 2) / 3),
    decreases b.len(),
{
    if b.len() > 2 {
        law_base64_length(b.subrange(3, b.len() as int));
    }
}

} // verus!
