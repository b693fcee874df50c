//! The encodings and the keyed hash the library uses, each one call into the
//! crate that implements it. Their results are named rather than spelled
//! out: each is a function of its arguments alone.

use base64::Engine;
use hmac::{Hmac, Mac};
use sha2::Sha256;
use vstd::prelude::*;

verus! {

/// HMAC-SHA256 of `message` under `key`.
pub uninterp spec fn hmac_sha256(key: Seq<u8>, message: Seq<u8>) -> Seq<u8>;

/// Standard base64 (RFC 4648 alphabet, with padding) of `bytes`.
pub uninterp spec fn base64_standard(bytes: Seq<u8>) -> Seq<char>;

/// The bytes that URL-safe base64 without padding decodes `text` to, or `None`
/// when `text` is not such an encoding.
pub uninterp spec fn base64_url_decoded(text: Seq<char>) -> Option<Seq<u8>>;

/// The members of the JSON object `bytes` holds, in key order, each with its
/// value when that value is a string; `None` when `bytes` is not a JSON object.
pub uninterp spec fn json_object(bytes: Seq<u8>) -> Option<Seq<(Seq<char>, Option<Seq<char>>)>>;

/// What `bytes` holds as JSON: `None` where it is not JSON, `Some(None)` where
/// it is JSON but not an object, else the object's members in key order, each
/// with its value written back as compact JSON.
pub uninterp spec fn json_rendered(bytes: Seq<u8>) -> Option<Option<Seq<(Seq<char>, Seq<char>)>>>;

/// The items of the JSON array of strings `text` holds, or `None` when it
/// holds anything else.
pub uninterp spec fn json_strings(text: Seq<char>) -> Option<Seq<Seq<char>>>;

pub open spec fn strings_view(v: Seq<String>) -> Seq<Seq<char>> {
    v.map_values(|s: String| s@)
}

pub open spec fn pairs_view(v: Seq<(String, String)>) -> Seq<(Seq<char>, Seq<char>)> {
    v.map_values(|m: (String, String)| (m.0@, m.1@))
}

pub open spec fn members_view(v: Seq<(String, Option<String>)>) -> Seq<(Seq<char>, Option<Seq<char>>)> {
    v.map_values(
        |m: (String, Option<String>)|
            (
                m.0@,
                match m.1 {
                    Some(s) => Some(s@),
                    None => None,
                },
            ),
    )
}

/// `Hmac::<Sha256>::new_from_slice(key)`, then `update(message)` and
/// `finalize()`. The source of hmac 0.12 accepts a key of any length, so the
/// `None` arm (a key the crate refuses) is never taken; it is kept so that
/// nothing here can panic.
#[verifier::external_body]
pub(crate) fn hmac_sha256_of(key: &[u8], message: &[u8]) -> (r: Option<Vec<u8>>)
    ensures
        r is Some,
        r.unwrap()@ == hmac_sha256(key@, message@),
{
    let mut mac = <Hmac<Sha256> as Mac>::new_from_slice(key).ok()?;
    mac.update(message);
    Some(mac.finalize().into_bytes().to_vec())
}

/// `base64::engine::general_purpose::STANDARD.encode(bytes)`.
#[verifier::external_body]
pub(crate) fn encode_base64(bytes: &[u8]) -> (r: String)
    ensures
        r@ == base64_standard(bytes@),
{
    base64::engine::general_purpose::STANDARD.encode(bytes)
}

/// `base64::engine::general_purpose::URL_SAFE_NO_PAD.decode(text)`, with a
/// decoding error read as `None`.
#[verifier::external_body]
pub(crate) fn decode_base64_url(text: &str) -> (r: Option<Vec<u8>>)
    ensures
        match r {
            Some(bytes) => base64_url_decoded(text@) == Some(bytes@),
            None => base64_url_decoded(text@) is None,
        },
{
    base64::engine::general_purpose::URL_SAFE_NO_PAD.decode(text).ok()
}

/// `serde_json::from_slice` into a JSON object, each member kept with its
/// value when that value is a string (`Value::as_str`).
#[verifier::external_body]
pub(crate) fn parse_json_object(bytes: &[u8]) -> (r: Option<Vec<(String, Option<String>)>>)
    ensures
        match r {
            Some(members) => json_object(bytes@) == Some(members_view(members@)),
            None => json_object(bytes@) is None,
        },
{
    let object = serde_json::from_slice::<serde_json::Map<String, serde_json::Value>>(bytes).ok()?;
    Some(object.into_iter().map(|(key, value)| (key, value.as_str().map(str::to_string))).collect())
}

/// `serde_json::from_slice::<serde_json::Value>(bytes)`, an object's members
/// each with `Value::to_string` of its value, and an error read as `None`.
#[verifier::external_body]
pub(crate) fn parse_json_rendered(bytes: &[u8]) -> (r: Option<Option<Vec<(String, String)>>>)
    ensures
        match r {
            Some(Some(members)) => json_rendered(bytes@) == Some(Some(pairs_view(members@))),
            Some(None) => json_rendered(bytes@) == Some(None::<Seq<(Seq<char>, Seq<char>)>>),
            None => json_rendered(bytes@) is None,
        },
{
    match serde_json::from_slice::<serde_json::Value>(bytes).ok()? {
        serde_json::Value::Object(m) => Some(Some(m.into_iter().map(|(k, v)| (k, v.to_string())).collect())),
        _ => Some(None),
    }
}

/// `serde_json::from_str::<Vec<String>>(text)`, with an error read as `None`.
#[verifier::external_body]
pub(crate) fn parse_json_strings(text: &str) -> (r: Option<Vec<String>>)
    ensures
        match r {
            Some(items) => json_strings(text@) == Some(strings_view(items@)),
            None => json_strings(text@) is None,
        },
{
    serde_json::from_str::<Vec<String>>(text).ok()
}

} // verus!
