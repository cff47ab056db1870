use kival::security::{api_key_from_secret, generate_api_key, generate_secret_token, hash_token, secret_token_from_bytes, API_KEY_PREFIX};

#[test]
fn generated_api_key_contains_matching_verifier() {
    let api_key = generate_api_key().expect("API key generation should succeed");

    assert!(api_key.token.starts_with(API_KEY_PREFIX));
    assert_eq!(api_key.token_hash, hash_token(&api_key.token));
}

#[test]
fn secret_tokens_are_unpadded_base64url_of_32_bytes() {
    let token = generate_secret_token().expect("random source works");
    assert_eq!(token.len(), 43);
    assert!(token.chars().all(|c| c.is_ascii_alphanumeric() || c == '-' || c == '_'));
    assert_eq!(secret_token_from_bytes(&[0u8; 32]), "A".repeat(43));
    let mut bytes = [0u8; 32];
    bytes[0] = 0xfb;
    bytes[1] = 0xff;
    assert!(secret_token_from_bytes(&bytes).starts_with("-_8"));
}

#[test]
fn token_verifier_is_sha256_of_the_token() {
    let digest = hash_token("abc");
    let hex: String = digest.iter().map(|b| format!("{b:02x}")).collect();
    assert_eq!(hex, "ba7816bf8f01cfea414140de5dae2223b00361a396177a9cb410ff61f20015ad");
}

#[test]
fn api_key_from_secret_prefixes_and_hashes() {
    let key = api_key_from_secret("secret");
    assert_eq!(key.token, "kvl_secret");
    assert_eq!(key.token_hash, hash_token("kvl_secret"));
}

fn url_safe(s: &str) -> bool {
    s.chars().all(|c| c.is_ascii_alphanumeric() || c == '-' || c == '_')
}

#[test]
fn generated_credentials_have_fixed_length_and_url_safe_alphabet() {
    let api_key = generate_api_key().expect("API key generation should succeed");
    assert_eq!(api_key.token.len(), 47);
    assert!(url_safe(&api_key.token[4..]));
    let secret = generate_secret_token().expect("secret generation should succeed");
    assert_eq!(secret.len(), 43);
    assert!(url_safe(&secret));
}
