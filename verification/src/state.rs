//! What every Cognito sign-in call derives from the configuration.

use vstd::prelude::*;
use vstd::utf8::encode_utf8;

use crate::codec::{base64_standard, encode_base64, hmac_sha256, hmac_sha256_of};
use crate::config::Config;

verus! {

/// The SECRET_HASH Cognito expects for `username` from an app client with
/// the secret `secret`: base64 of HMAC-SHA256, keyed with the secret, over the
/// username followed by the client ID.
pub open spec fn secret_hash_of(secret: Seq<char>, client_id: Seq<char>, username: Seq<char>) -> Seq<char> {
    base64_standard(hmac_sha256(encode_utf8(secret), encode_utf8(username) + encode_utf8(client_id)))
}

/// The SECRET_HASH for `username`, or `None` when the app client has no secret.
pub open spec fn secret_hash_spec(config: Config, username: Seq<char>) -> Option<Seq<char>> {
    match config.client_secret {
        Some(secret) => Some(secret_hash_of(secret@, config.client_id@, username)),
        None => None,
    }
}

/// SECRET_HASH required by app clients that have a secret.
pub fn secret_hash(config: &Config, username: &str) -> (r: Option<String>)
    ensures
        match r {
            Some(h) => secret_hash_spec(*config, username@) == Some(h@),
            None => secret_hash_spec(*config, username@) is None,
        },
{
    let secret = match &config.client_secret {
        Some(s) => s,
        None => return None,
    };
    let mut message: Vec<u8> = Vec::new();
    message.extend_from_slice(username.as_bytes());
    message.extend_from_slice(config.client_id.as_str().as_bytes());
    assert(message@ =~= encode_utf8(username@) + encode_utf8(config.client_id@));
    let tag = match hmac_sha256_of(secret.as_str().as_bytes(), message.as_slice()) {
        Some(tag) => tag,
        None => return None,
    };
    Some(encode_base64(tag.as_slice()))
}

} // verus!
