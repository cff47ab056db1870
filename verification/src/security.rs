//! Credentials: random bearer secrets, API keys and their stored verifiers.
use base64::Engine;
use getrandom::Error as RandomError;
use base64::engine::general_purpose::URL_SAFE_NO_PAD;
use sha2::{Digest, Sha256};
use vstd::prelude::*;
use vstd::utf8::encode_utf8;
use crate::text::append_str;

verus! {

/// Prefix applied to generated API key credentials.
pub const API_KEY_PREFIX: &'static str = "kvl_";

/// Number of random bytes used for bearer credentials and one-time capabilities.
pub const SECRET_TOKEN_BYTES: usize = 32;

#[verifier::external_type_specification]
#[verifier::external_body]
pub struct ExRandomError(RandomError);

/// Security helper errors.
#[derive(Debug, Clone, Copy)]
pub enum SecurityError {
    /// Random byte generation failed.
    Random(RandomError),
}

/// Fills `dest` with random bytes from the operating system (`getrandom::fill`). Nothing is
/// promised of the bytes: they come from the system's random source, and on failure they are
/// unspecified.
#[verifier::external_body]
fn fill_random(dest: &mut [u8; 32]) -> (r: Result<(), RandomError>) {
    getrandom::fill(dest)
}

/// The unpadded base64url text of `bytes` (RFC 4648, section 5, without `=`).
pub uninterp spec fn base64_url_no_pad(bytes: Seq<u8>) -> Seq<char>;

/// Whether `c` belongs to the base64url alphabet.
pub open spec fn is_base64_url_char(c: char) -> bool {
    ('A' <= c && c <= 'Z') || ('a' <= c && c <= 'z') || ('0' <= c && c <= '9') || c == '-' || c == '_'
}

/// Encodes 32 bytes as unpadded base64url (`URL_SAFE_NO_PAD.encode`): 43 characters of the
/// URL-safe alphabet, as the encoding produces four characters for each three bytes and two or
/// three for a trailing one or two.
#[verifier::external_body]
fn encode_base64_url(bytes: &[u8; 32]) -> (s: String)
    ensures
        s@ == base64_url_no_pad(bytes@),
        s@.len() == 43,
        forall|i: int| 0 <= i < s@.len() ==> is_base64_url_char(#[trigger] s@[i]),
{
    URL_SAFE_NO_PAD.encode(bytes)
}

/// The SHA-256 digest of `data`.
pub uninterp spec fn sha256(data: Seq<u8>) -> Seq<u8>;

/// Computes the SHA-256 digest of `data` (`Sha256::digest`); it has 32 bytes by its type.
#[verifier::external_body]
fn sha256_digest(data: &[u8]) -> (d: [u8; 32])
    ensures
        d@ == sha256(data@),
{
    Sha256::digest(data).into()
}

/// Newly generated API-key credential.
pub struct GeneratedApiKey {
    /// Plaintext bearer token shown to the caller once.
    pub token: String,
    /// Fixed-size verifier persisted for authentication.
    pub token_hash: [u8; 32],
}

/// The verifier stored for a token: the SHA-256 digest of its UTF-8 bytes.
pub open spec fn token_verifier(token: Seq<char>) -> Seq<u8> {
    sha256(encode_utf8(token))
}

/// Derives the fixed-size verifier stored for a bearer credential or capability.
pub fn hash_token(token: &str) -> (d: [u8; 32])
    ensures
        d@ == token_verifier(token@),
{
    sha256_digest(token.as_bytes())
}

/// Encodes random bytes as a secret token.
pub fn secret_token_from_bytes(bytes: &[u8; 32]) -> (s: String)
    ensures
        s@ == base64_url_no_pad(bytes@),
        s@.len() == 43,
        forall|i: int| 0 <= i < s@.len() ==> is_base64_url_char(#[trigger] s@[i]),
{
    encode_base64_url(bytes)
}

/// Generates a 256-bit unpadded base64url authentication secret.
pub fn generate_secret_token() -> (r: Result<String, SecurityError>)
    ensures
        r matches Ok(s) ==> exists|b: Seq<u8>| b.len() == 32 && s@ == #[trigger] base64_url_no_pad(b),
        r matches Ok(s) ==> s@.len() == 43,
        r matches Ok(s) ==> forall|i: int| 0 <= i < s@.len() ==> is_base64_url_char(#[trigger] s@[i]),
{
    let mut token = [0u8; 32];
    match fill_random(&mut token) {
        Ok(()) => {
            let s = secret_token_from_bytes(&token);
            assert(token@.len() == 32);
            Ok(s)
        },
        Err(e) => Err(SecurityError::Random(e)),
    }
}

/// The API key built from a secret: the prefix, then the secret, with its verifier.
pub fn api_key_from_secret(secret: &str) -> (k: GeneratedApiKey)
    ensures
        k.token@ == API_KEY_PREFIX@ + secret@,
        k.token_hash@ == token_verifier(k.token@),
{
    let mut token = API_KEY_PREFIX.to_owned();
    append_str(&mut token, secret);
    let token_hash = hash_token(token.as_str());
    GeneratedApiKey { token, token_hash }
}

/// Generates an API key and its stored verifier: `kvl_` and a fresh secret token, and the
/// digest of that whole token.
pub fn generate_api_key() -> (r: Result<GeneratedApiKey, SecurityError>)
    ensures
        r matches Ok(k) ==> exists|b: Seq<u8>| b.len() == 32 && k.token@ == API_KEY_PREFIX@ + #[trigger] base64_url_no_pad(b),
        r matches Ok(k) ==> k.token_hash@ == token_verifier(k.token@),
        r matches Ok(k) ==> API_KEY_PREFIX@.is_prefix_of(k.token@),
        r matches Ok(k) ==> k.token@.len() == 47,
        r matches Ok(k) ==> forall|i: int|
            API_KEY_PREFIX@.len() <= i < k.token@.len() ==> is_base64_url_char(#[trigger] k.token@[i]),
{
    match generate_secret_token() {
        Ok(secret) => {
            let k = api_key_from_secret(secret.as_str());
            proof {
                reveal_strlit("kvl_");
            }
            assert(k.token@.subrange(0, API_KEY_PREFIX@.len() as int) =~= API_KEY_PREFIX@);
            assert forall|i: int| API_KEY_PREFIX@.len() <= i < k.token@.len() implies is_base64_url_char(
                #[trigger] k.token@[i],
            ) by {
                assert(k.token@[i] == secret@[i - API_KEY_PREFIX@.len()]);
            }
            Ok(k)
        },
        Err(e) => Err(e),
    }
}

} // verus!
