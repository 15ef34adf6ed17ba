//! The authentication request of the private endpoint: an RSA-SHA256
//! signature of `GET/realtime<expires>`, sent in standard base64.
use vstd::prelude::*;
use base64::Engine;
use crate::json::{Json, JsonNumber};
use crate::text::{decimal, decimal_text};

verus! {

/// The character of a 6-bit value in the standard base64 alphabet.
pub open spec fn b64_digit(v: int) -> char {
    if v < 26 {
        (65 + v) as char
    } else if v < 52 {
        (97 + v - 26) as char
    } else if v < 62 {
        (48 + v - 52) as char
    } else if v == 62 {
        '+'
    } else {
        '/'
    }
}

/// Standard base64 with `=` padding (RFC 4648, section 4).
pub open spec fn base64_standard(b: Seq<u8>) -> Seq<char>
    decreases b.len(),
{
    let b0 = if b.len() > 0 { b[0] as int } else { 0 };
    let b1 = if b.len() > 1 { b[1] as int } else { 0 };
    let b2 = if b.len() > 2 { b[2] as int } else { 0 };
    if b.len() == 0 {
        Seq::empty()
    } else if b.len() == 1 {
        seq![b64_digit(b0 / 4), b64_digit((b0 % 4) * 16), '=', '=']
    } else if b.len() == 2 {
        seq![
            b64_digit(b0 / 4),
            b64_digit((b0 % 4) * 16 + b1 / 16),
            b64_digit((b1 % 16) * 4),
            '=',
        ]
    } else {
        seq![
            b64_digit(b0 / 4),
            b64_digit((b0 % 4) * 16 + b1 / 16),
            b64_digit((b1 % 16) * 4 + b2 / 64),
            b64_digit(b2 % 64),
        ] + base64_standard(b.skip(3))
    }
}

/// Standard base64 writes four characters for every three bytes begun.
pub proof fn lemma_base64_length(b: Seq<u8>)
    ensures
        base64_standard(b).len() == 4 * ((b.len() + 2) / 3),
    decreases b.len(),
{
    if b.len() > 2 {
        lemma_base64_length(b.skip(3));
        assert((b.len() + 2) / 3 == (b.len() - 3 + 2) / 3 + 1);
    }
}

/// `base64::engine::general_purpose::STANDARD.encode(data)`: the standard
/// alphabet with padding, as RFC 4648 defines it.
#[verifier::external_body]
pub(crate) fn encode_base64(data: &[u8]) -> (r: String)
    ensures
        r@ == base64_standard(data@),
{
    base64::engine::general_purpose::STANDARD.encode(data)
}

/// The PKCS#1 v1.5 RSA signature over the SHA-256 digest of the UTF-8 bytes
/// of `message`, with the RSA key that `private_key_pem` holds. PKCS#1 v1.5
/// signing has no random input, so the bytes are fixed by the key and the
/// message.
pub uninterp spec fn rsa_sha256_signature(private_key_pem: Seq<char>, message: Seq<char>) -> Seq<u8>;

/// `Rsa::private_key_from_pem`, `PKey::from_rsa`, `Signer::new` with SHA-256,
/// `Signer::update` and `Signer::sign_to_vec` (PKCS#1 v1.5 padding, OpenSSL's
/// default for RSA): a signature it returns is `rsa_sha256_signature` of the
/// key and the message. Whether it succeeds, and the error text, are not
/// stated: for an encrypted key OpenSSL asks for the passphrase on the
/// terminal, and its configuration file, read from disk at start-up, can
/// refuse keys or algorithms.
#[verifier::external_body]
pub(crate) fn sign_rsa_sha256(private_key_pem: &str, message: &str) -> (r: Result<Vec<u8>, String>)
    ensures
        r matches Ok(s) ==> s@ == rsa_sha256_signature(private_key_pem@, message@),
{
    let rsa = openssl::rsa::Rsa::private_key_from_pem(private_key_pem.as_bytes()).map_err(
        |e| e.to_string(),
    )?;
    let pkey = openssl::pkey::PKey::from_rsa(rsa).map_err(|e| e.to_string())?;
    let mut signer = openssl::sign::Signer::new(openssl::hash::MessageDigest::sha256(), &pkey)
        .map_err(|e| e.to_string())?;
    signer.update(message.as_bytes()).map_err(|e| e.to_string())?;
    signer.sign_to_vec().map_err(|e| e.to_string())
}

/// How long an authentication request stays valid, in milliseconds.
pub const AUTH_VALIDITY_MS: u128 = 10000;

/// The text that is signed: `GET/realtime` and the expiry time in decimal.
pub open spec fn auth_signing_text(expires: nat) -> Seq<char> {
    "GET/realtime"@ + decimal(expires)
}

/// The body of an authentication request:
/// `{"op": "auth", "args": [<api key>, <expires>, <signature>]}`.
pub open spec fn is_auth_payload(j: Json, api_key: Seq<char>, expires: u64, signature: Seq<char>) -> bool {
    match j {
        Json::Object(f) => {
            &&& f@.len() == 2
            &&& f@[0].0@ == "op"@ && f@[0].1.is_text("auth"@)
            &&& f@[1].0@ == "args"@
            &&& match f@[1].1 {
                Json::Array(a) => {
                    &&& a@.len() == 3
                    &&& a@[0].is_text(api_key)
                    &&& a@[1] == Json::Number(JsonNumber::Unsigned(expires))
                    &&& a@[2].is_text(signature)
                },
                _ => false,
            }
        },
        _ => false,
    }
}

/// The authentication request that expires at `expires`, given the outcome
/// of signing `GET/realtime<expires>`: a signing error is handed back with
/// its text unchanged.
pub fn auth_message_from_signature(api_key: &str, expires: u64, signed: Result<Vec<u8>, String>) -> (r: Result<
    Json,
    String,
>)
    ensures
        signed matches Err(e) ==> r matches Err(f) && f@ == e@,
        signed matches Ok(sig) ==> r matches Ok(j) && is_auth_payload(
            j,
            api_key@,
            expires,
            base64_standard(sig@),
        ),
{
    let signature = match signed {
        Ok(sig) => sig,
        Err(e) => {
            return Err(e);
        },
    };
    let encoded = encode_base64(signature.as_slice());
    let args = vec![
        Json::Str(api_key.to_string()),
        Json::Number(JsonNumber::Unsigned(expires)),
        Json::Str(encoded),
    ];
    Ok(Json::Object(vec![("op".to_string(), Json::Str("auth".to_string())), ("args".to_string(), Json::Array(args))]))
}

/// The text signed for a request made at `now_ms`: `GET/realtime` and the
/// expiry time, 10 s later, in decimal.
pub fn auth_signing_message(now_ms: u128) -> (r: String)
    requires
        now_ms + AUTH_VALIDITY_MS <= u128::MAX,
    ensures
        r@ == auth_signing_text((now_ms + AUTH_VALIDITY_MS) as nat),
{
    let expires = now_ms + AUTH_VALIDITY_MS;
    "GET/realtime".to_string().concat(decimal_text(expires).as_str())
}

/// The authentication request made at `now_ms` (milliseconds since the
/// epoch): it expires 10 s later and carries the base64 text of the RSA
/// SHA-256 signature of `GET/realtime<expires>` under `private_key`. A
/// signing error is handed back as OpenSSL words it.
pub fn generate_auth_message(api_key: &str, private_key: &str, now_ms: u128) -> (r: Result<
    Json,
    String,
>)
    requires
        now_ms + AUTH_VALIDITY_MS <= u64::MAX,
    ensures
        r matches Ok(j) ==> is_auth_payload(
            j,
            api_key@,
            (now_ms + AUTH_VALIDITY_MS) as u64,
            base64_standard(
                rsa_sha256_signature(private_key@, auth_signing_text((now_ms + AUTH_VALIDITY_MS) as nat)),
            ),
        ),
{
    let expires = now_ms + AUTH_VALIDITY_MS;
    let val = auth_signing_message(now_ms);
    let signed = sign_rsa_sha256(private_key, val.as_str());
    auth_message_from_signature(api_key, expires as u64, signed)
}

} // verus!
