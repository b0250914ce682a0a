//! The access headers that authenticate the order book stream: the key id, the
//! time of the request in milliseconds, and an RSA-PSS (SHA-256) signature of
//! the time followed by the request line, in base64.

use vstd::prelude::*;

use crate::decimal::{decimal_digits, push_decimal_u128};

verus! {

/// `rsa::RsaPrivateKey`, carried through unopened.
#[verifier::external_type_specification]
#[verifier::external_body]
pub struct ExRsaPrivateKey(rsa::RsaPrivateKey);

/// `rsa::signature::Error`, the error of a failed signing operation, carried through unopened.
#[verifier::external_type_specification]
#[verifier::external_body]
pub struct ExSignatureError(rsa::signature::Error);

/// The character of a six-bit value in the standard base64 alphabet
/// (`A-Z`, `a-z`, `0-9`, `+`, `/`).
pub open spec fn base64_char(v: int) -> char {
    if v < 26 {
        (65 + v) as char
    } else if v < 52 {
        (97 + (v - 26)) as char
    } else if v < 62 {
        (48 + (v - 52)) as char
    } else if v == 62 {
        '+'
    } else {
        '/'
    }
}

/// The alphabet runs `A`..`Z` for 0..25, `a`..`z` for 26..51, `0`..`9` for
/// 52..61, then `+` and `/`; distinct six-bit values get distinct characters.
pub proof fn lemma_base64_alphabet(v: int, w: int)
    requires
        0 <= v < 64,
        0 <= w < 64,
    ensures
        base64_char(0) == 'A' && base64_char(25) == 'Z',
        base64_char(26) == 'a' && base64_char(51) == 'z',
        base64_char(52) == '0' && base64_char(61) == '9',
        base64_char(62) == '+' && base64_char(63) == '/',
        v != w ==> base64_char(v) != base64_char(w),
{
}

/// The standard base64 encoding of a sequence of bytes: each group of three
/// bytes becomes four characters, six bits each, most significant first; a last
/// group of one or two bytes is filled out with zero bits and padded with `=`.
pub open spec fn base64_standard(bytes: Seq<u8>) -> Seq<char>
    decreases bytes.len(),
{
    if bytes.len() == 0 {
        Seq::empty()
    } else if bytes.len() == 1 {
        let a = bytes[0] as int;
        seq![base64_char(a / 4), base64_char((a % 4) * 16), '=', '=']
    } else if bytes.len() == 2 {
        let a = bytes[0] as int;
        let b = bytes[1] as int;
        seq![base64_char(a / 4), base64_char((a % 4) * 16 + b / 16), base64_char((b % 16) * 4), '=']
    } else {
        let a = bytes[0] as int;
        let b = bytes[1] as int;
        let c = bytes[2] as int;
        seq![
            base64_char(a / 4),
            base64_char((a % 4) * 16 + b / 16),
            base64_char((b % 16) * 4 + c / 64),
            base64_char(c % 64),
        ] + base64_standard(bytes.subrange(3, bytes.len() as int))
    }
}

/// Four characters for every started group of three bytes.
pub proof fn lemma_base64_length(bytes: Seq<u8>)
    ensures
        base64_standard(bytes).len() == 4 * ((bytes.len() + 2) / 3),
    decreases bytes.len(),
{
    if bytes.len() >= 3 {
        lemma_base64_length(bytes.subrange(3, bytes.len() as int));
    }
}

/// Encodes bytes with `base64::Engine::encode` on
/// `base64::engine::general_purpose::STANDARD`. Trusted: the result is the
/// standard padded encoding of the bytes. `encode` panics when the encoded
/// length overflows `usize`, which `requires` rules out.
#[verifier::external_body]
fn base64_encode(bytes: &[u8]) -> (s: String)
    requires
        (bytes@.len() + 2) / 3 * 4 <= usize::MAX,
    ensures
        s@ == base64_standard(bytes@),
{
    base64::Engine::encode(&base64::engine::general_purpose::STANDARD, bytes)
}

/// Signs `message` with `rsa::signature::RandomizedSigner::try_sign_with_rng` on a
/// `rsa::pss::BlindedSigningKey<sha2::Sha256>` made from `key`, with the operating
/// system's random number generator, and returns the signature's bytes. Trusted:
/// only that a signature, like every `Vec<u8>`, holds at most `isize::MAX` bytes.
/// The salt is random, so nothing is said of which bytes come back, nor of when
/// signing fails.
#[verifier::external_body]
fn sign_pss_sha256(key: rsa::RsaPrivateKey, message: &str) -> (r: Result<
    Vec<u8>,
    rsa::signature::Error,
>)
    ensures
        r matches Ok(sig) ==> sig@.len() <= isize::MAX,
{
    let signer = rsa::pss::BlindedSigningKey::<sha2::Sha256>::new(key);
    match rsa::signature::RandomizedSigner::try_sign_with_rng(
        &signer,
        &mut rsa::rand_core::OsRng,
        message.as_bytes(),
    ) {
        Ok(signature) => Ok(rsa::signature::SignatureEncoding::to_vec(&signature)),
        Err(e) => Err(e),
    }
}

/// Why access headers could not be made.
#[derive(Debug, Clone, Copy, PartialEq, Eq, Structural)]
pub enum AuthError {
    /// The signing operation failed.
    SigningFailed,
}

/// The headers that authenticate a request to the order book stream.
#[derive(Debug, Clone)]
pub struct AccessHeaders {
    /// `KALSHI-ACCESS-KEY`
    pub key: String,
    /// `KALSHI-ACCESS-SIGNATURE`
    pub signature: String,
    /// `KALSHI-ACCESS-TIMESTAMP`
    pub timestamp: String,
}

/// The text that is signed: the time in milliseconds, then the request line.
pub open spec fn access_message_text(timestamp_ms: nat) -> Seq<char> {
    decimal_digits(timestamp_ms) + "GET/trade-api/ws/v2"@
}

/// The text that is signed for a request made at `timestamp_ms`.
pub fn access_message(timestamp_ms: u128) -> (m: String)
    ensures
        m@ == access_message_text(timestamp_ms as nat),
{
    let mut m = String::new();
    push_decimal_u128(&mut m, timestamp_ms);
    m.append("GET/trade-api/ws/v2");
    m
}

/// The headers for a request made at `timestamp_ms`, given the signature of its
/// access message.
pub fn access_headers_from_signature(api_key_id: &str, timestamp_ms: u128, signature: &[u8]) -> (h:
    AccessHeaders)
    requires
        (signature@.len() + 2) / 3 * 4 <= usize::MAX,
    ensures
        h.key@ == api_key_id@,
        h.timestamp@ == decimal_digits(timestamp_ms as nat),
        h.signature@ == base64_standard(signature@),
{
    let mut timestamp = String::new();
    push_decimal_u128(&mut timestamp, timestamp_ms);
    AccessHeaders {
        key: String::from_str(api_key_id),
        signature: base64_encode(signature),
        timestamp,
    }
}

/// Signs the access message of a request made at `timestamp_ms` and makes its
/// headers. The signature is randomised, so of it only its encoding is stated.
pub fn access_headers(api_key_id: &str, key: rsa::RsaPrivateKey, timestamp_ms: u128) -> (r: Result<
    AccessHeaders,
    AuthError,
>)
    ensures
        r matches Ok(h) ==> {
            &&& h.key@ == api_key_id@
            &&& h.timestamp@ == decimal_digits(timestamp_ms as nat)
            &&& exists|sig: Seq<u8>| h.signature@ == base64_standard(sig)
        },
        r matches Err(e) ==> e == AuthError::SigningFailed,
{
    let message = access_message(timestamp_ms);
    match sign_pss_sha256(key, message.as_str()) {
        Ok(signature) => {
            assert((signature@.len() + 2) / 3 * 4 <= usize::MAX) by (nonlinear_arith)
                requires
                    signature@.len() <= isize::MAX,
                    isize::MAX * 2 < usize::MAX,
            ;
            let h = access_headers_from_signature(api_key_id, timestamp_ms, signature.as_slice());
            Ok(h)
        },
        Err(_) => Err(AuthError::SigningFailed),
    }
}

} // verus!
