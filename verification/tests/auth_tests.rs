use bybit_stream::auth::generate_auth_message;
use bybit_stream::json::{Json, JsonNumber};

#[test]
fn auth_message_is_signed() {
    let rsa = openssl::rsa::Rsa::generate(2048).unwrap();
    let pem = String::from_utf8(rsa.private_key_to_pem().unwrap()).unwrap();
    let now: u128 = 1_700_000_000_000;
    let msg = generate_auth_message("my-key", &pem, now).ok().unwrap();
    assert_eq!(msg.str_at("op"), Some("auth"));
    let args = msg.array_at("args").unwrap();
    assert_eq!(args.len(), 3);
    assert_eq!(args[0].as_str(), Some("my-key"));
    assert!(matches!(args[1], Json::Number(JsonNumber::Unsigned(1_700_000_010_000))));
    let sig_b64 = args[2].as_str().unwrap();
    let sig = openssl::base64::decode_block(sig_b64).unwrap();
    let pkey = openssl::pkey::PKey::from_rsa(rsa).unwrap();
    let mut verifier = openssl::sign::Verifier::new(openssl::hash::MessageDigest::sha256(), &pkey).unwrap();
    verifier.update(b"GET/realtime1700000010000").unwrap();
    assert!(verifier.verify(&sig).unwrap());
}

#[test]
fn auth_message_refuses_a_bad_key() {
    assert!(generate_auth_message("k", "not a key", 1).is_err());
}

#[test]
fn signing_error_text_is_handed_back() {
    let r = bybit_stream::auth::auth_message_from_signature("k", 5, Err("bad key".to_string()));
    assert_eq!(r.err(), Some("bad key".to_string()));
    let j = bybit_stream::auth::auth_message_from_signature("k", 5, Ok(b"foo".to_vec())).ok().unwrap();
    let args = j.array_at("args").unwrap();
    assert_eq!(args[2].as_str(), Some("Zm9v"));
    assert!(matches!(args[1], Json::Number(JsonNumber::Unsigned(5))));
}

#[test]
fn signed_text_names_the_expiry() {
    assert_eq!(bybit_stream::auth::auth_signing_message(1_700_000_000_000), "GET/realtime1700000010000");
    assert_eq!(bybit_stream::auth::auth_signing_message(0), "GET/realtime10000");
}
