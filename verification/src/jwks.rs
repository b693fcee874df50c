//! What the ID-token check decides: where the pool's signing keys live, which
//! issuers name the pool, which cached key a token can use, and that the token
//! is an identity and not an access token.

use vstd::prelude::*;

use jsonwebtoken::{decode, decode_header, Algorithm, DecodingKey, Validation};
use serde_json::Value;

use crate::codec::{
    base64_url_decoded, decode_base64_url, json_rendered, pairs_view, parse_json_rendered, strings_view,
};
use crate::session::{second_field, second_field_of};
use crate::text::{append_str, starts_with, str_eq};

verus! {

/// A cached key set is used for an hour before it is fetched again.
pub const CACHE_TTL_SECS: u64 = 3600;

/// A kid the cached set does not hold means the pool rotated its keys, so the
/// set is fetched again rather than waiting out the TTL. Bounding how often
/// that can happen keeps a stream of tokens carrying a made-up kid from
/// turning into one outbound request each.
pub const REFETCH_INTERVAL_SECS: u64 = 60;

/// Claims this app reads from a Cognito ID token.
#[derive(Debug)]
pub struct IdClaims {
    pub sub: String,
    pub username: Option<String>,
    pub groups: Vec<String>,
    pub email: Option<String>,
    pub token_use: String,
}

/// Where the pool's signing keys are published, the issuers that name the
/// pool, and the audience a token must carry.
pub struct JwksConfig {
    pub url: String,
    pub issuers: [String; 2],
    pub client_id: String,
}

pub open spec fn canonical_issuer(region: Seq<char>, pool: Seq<char>) -> Seq<char> {
    "https://cognito-idp."@ + region + ".amazonaws.com/"@ + pool
}

pub open spec fn alternate_issuer(region: Seq<char>, pool: Seq<char>) -> Seq<char> {
    "https://issuer-cognito-idp."@ + region + ".amazonaws.com/"@ + pool
}

impl JwksConfig {
    /// Depending on how a pool is set up, Cognito stamps tokens with either
    /// host, and the discovery document advertises only the first even when
    /// the tokens carry the second. Both are AWS controlled and name this
    /// pool, so accepting both does not widen who is trusted; they also serve
    /// the same JWKS.
    pub fn new(region: &str, user_pool_id: &str, client_id: &str) -> (r: JwksConfig)
        ensures
            r.url@ == canonical_issuer(region@, user_pool_id@) + "/.well-known/jwks.json"@,
            r.issuers[0]@ == canonical_issuer(region@, user_pool_id@),
            r.issuers[1]@ == alternate_issuer(region@, user_pool_id@),
            r.client_id@ == client_id@,
    {
        let mut canonical = String::from_str("https://cognito-idp.");
        append_str(&mut canonical, region);
        append_str(&mut canonical, ".amazonaws.com/");
        append_str(&mut canonical, user_pool_id);
        let mut url = canonical.clone();
        append_str(&mut url, "/.well-known/jwks.json");
        let mut alternate = String::from_str("https://issuer-cognito-idp.");
        append_str(&mut alternate, region);
        append_str(&mut alternate, ".amazonaws.com/");
        append_str(&mut alternate, user_pool_id);
        JwksConfig { url, issuers: [canonical, alternate], client_id: String::from_str(client_id) }
    }
}

/// An access token carries the same signature and issuer, so the use must be
/// checked explicitly before its claims are trusted as an identity.
pub fn accept_identity(claims: IdClaims) -> (r: Result<IdClaims, String>)
    ensures
        claims.token_use@ == "id"@ ==> r == Ok::<IdClaims, String>(claims),
        claims.token_use@ != "id"@ ==> (r matches Err(m) && m@ == "not an ID token"@),
{
    if str_eq(claims.token_use.as_str(), "id") {
        Ok(claims)
    } else {
        Err(String::from_str("not an ID token"))
    }
}

/// The signing keys last fetched, by kid, and when (in seconds on a
/// monotonic clock).
pub struct KeyCache<K> {
    pub keys: Vec<(String, K)>,
    pub fetched_at: u64,
}

/// What the cache can do for a token signed with some kid.
pub ghost enum Lookup<K> {
    /// A fresh set holds the key.
    Cached(K),
    /// No usable key: fetching the set again is worth it.
    Fetch,
    /// A fresh set lacks the kid and was fetched too recently to ask again.
    Unknown,
}

pub open spec fn find_key<K>(keys: Seq<(String, K)>, kid: Seq<char>) -> Option<K>
    decreases keys.len(),
{
    if keys.len() == 0 {
        None
    } else if keys[0].0@ == kid {
        Some(keys[0].1)
    } else {
        find_key(keys.drop_first(), kid)
    }
}

/// The decision for `kid` at time `now`, given the cached set, if any.
pub open spec fn lookup_spec<K>(cache: Option<KeyCache<K>>, kid: Seq<char>, now: u64) -> Lookup<K> {
    match cache {
        None => Lookup::Fetch,
        Some(c) => {
            let age: int = if now >= c.fetched_at {
                now - c.fetched_at
            } else {
                0
            };
            if age >= CACHE_TTL_SECS {
                Lookup::Fetch
            } else {
                match find_key(c.keys@, kid) {
                    Some(k) => Lookup::Cached(k),
                    None => if age >= REFETCH_INTERVAL_SECS {
                        Lookup::Fetch
                    } else {
                        Lookup::Unknown
                    },
                }
            }
        },
    }
}

/// What `KeyCache::lookup` found: the index of the key in the cached set, or
/// what to do without one.
pub enum KeyLookup {
    Cached(usize),
    Fetch,
    Unknown,
}

impl<K> KeyCache<K> {
    /// The cached key for `kid`, and whether fetching is worth it when there
    /// is none.
    #[verifier::loop_isolation(false)]
    pub fn lookup(cache: &Option<KeyCache<K>>, kid: &str, now: u64) -> (r: KeyLookup)
        ensures
            match (r, lookup_spec(*cache, kid@, now)) {
                (KeyLookup::Cached(i), Lookup::Cached(k)) => cache matches Some(c) && i < c.keys@.len()
                    && c.keys@[i as int].1 == k,
                (KeyLookup::Fetch, Lookup::Fetch) => true,
                (KeyLookup::Unknown, Lookup::Unknown) => true,
                _ => false,
            },
    {
        let c = match cache {
            None => return KeyLookup::Fetch,
            Some(c) => c,
        };
        let age = if now >= c.fetched_at {
            now - c.fetched_at
        } else {
            0
        };
        if age >= CACHE_TTL_SECS {
            return KeyLookup::Fetch;
        }
        let n = c.keys.len();
        let mut i: usize = 0;
        assert(c.keys@.subrange(0, n as int) =~= c.keys@);
        while i < n
            invariant
                n == c.keys@.len(),
                i <= n,
                find_key(c.keys@, kid@) == find_key(c.keys@.subrange(i as int, n as int), kid@),
            decreases n - i,
        {
            proof {
                let s = c.keys@.subrange(i as int, n as int);
                assert(s.drop_first() =~= c.keys@.subrange(i + 1, n as int));
            }
            if str_eq(c.keys[i].0.as_str(), kid) {
                return KeyLookup::Cached(i);
            }
            i = i + 1;
        }
        if age >= REFETCH_INTERVAL_SECS {
            KeyLookup::Fetch
        } else {
            KeyLookup::Unknown
        }
    }
}

/// The newest usable key for `kid` among `entries` (a later entry with the
/// same kid replaces an earlier one; an entry whose key did not parse is
/// skipped).
pub open spec fn latest<K>(entries: Seq<(String, Option<K>)>, kid: Seq<char>) -> Option<K>
    decreases entries.len(),
{
    if entries.len() == 0 {
        None
    } else {
        match latest(entries.drop_first(), kid) {
            Some(k) => Some(k),
            None => if entries[0].0@ == kid {
                entries[0].1
            } else {
                None
            },
        }
    }
}

proof fn lemma_find_key_push<K>(keys: Seq<(String, K)>, entry: (String, K), kid: Seq<char>)
    ensures
        find_key(keys.push(entry), kid) == match find_key(keys, kid) {
            Some(k) => Some(k),
            None => if entry.0@ == kid {
                Some(entry.1)
            } else {
                None
            },
        },
    decreases keys.len(),
{
    if keys.len() > 0 {
        assert(keys.push(entry).drop_first() =~= keys.drop_first().push(entry));
        assert(keys.push(entry)[0] == keys[0]);
        lemma_find_key_push(keys.drop_first(), entry, kid);
    } else {
        assert(keys.push(entry).drop_first() =~= keys);
        assert(keys.push(entry)[0] == entry);
    }
}

impl<K> KeyCache<K> {
    /// The cache for a freshly fetched key set, taken at `now`: each kid
    /// keeps its newest usable key.
    pub fn from_entries(entries: Vec<(String, Option<K>)>, now: u64) -> (r: KeyCache<K>)
        ensures
            r.fetched_at == now,
            forall|kid: Seq<char>| #[trigger] find_key(r.keys@, kid) == latest(entries@, kid),
    {
        let ghost all = entries@;
        let mut entries = entries;
        let mut keys: Vec<(String, K)> = Vec::new();
        // Taken from the back, so the first key `find_key` meets for a kid
        // is the newest.
        assert(all.subrange(all.len() as int, all.len() as int) =~= Seq::<(String, Option<K>)>::empty());
        assert(all.subrange(0, all.len() as int) =~= all);
        while entries.len() > 0
            invariant
                entries@ == all.subrange(0, entries@.len() as int),
                entries@.len() <= all.len(),
                forall|kid: Seq<char>| #[trigger] find_key(keys@, kid) == latest(
                    all.subrange(entries@.len() as int, all.len() as int),
                    kid,
                ),
            decreases entries@.len(),
        {
            let ghost before = entries@;
            let ghost old_keys = keys@;
            let (kid, key) = entries.pop().unwrap();
            let ghost i = entries@.len() as int;
            proof {
                assert(before.drop_last() =~= entries@);
                assert(entries@ =~= all.subrange(0, i));
                assert(all.subrange(i, all.len() as int).drop_first() =~= all.subrange(i + 1, all.len() as int));
                assert(all.subrange(i, all.len() as int)[0] == (kid, key));
            }
            match key {
                Some(k) => {
                    if !Self::holds(&keys, kid.as_str()) {
                        let ghost entry = (kid, k);
                        keys.push((kid, k));
                        proof {
                            assert forall|q: Seq<char>| #[trigger] find_key(keys@, q) == latest(
                                all.subrange(i, all.len() as int),
                                q,
                            ) by {
                                lemma_find_key_push(old_keys, entry, q);
                            }
                        }
                    }
                },
                None => {},
            }
        }
        KeyCache { keys, fetched_at: now }
    }

    fn holds(keys: &Vec<(String, K)>, kid: &str) -> (r: bool)
        ensures
            r == find_key(keys@, kid@) is Some,
    {
        let n = keys.len();
        let mut i: usize = 0;
        assert(keys@.subrange(0, n as int) =~= keys@);
        while i < n
            invariant
                n == keys@.len(),
                i <= n,
                find_key(keys@, kid@) == find_key(keys@.subrange(i as int, n as int), kid@),
            decreases n - i,
        {
            assert(keys@.subrange(i as int, n as int).drop_first() =~= keys@.subrange(i + 1, n as int));
            if str_eq(keys[i].0.as_str(), kid) {
                return true;
            }
            i = i + 1;
        }
        false
    }
}

#[verifier::external_type_specification]
#[verifier::external_body]
pub struct ExDecodingKey(jsonwebtoken::DecodingKey);

/// `DecodingKey::from_rsa_components(n, e)`, with the error dropped. Its
/// source decodes both components as URL-safe base64 without padding and
/// fails exactly when one of them is not; the key it builds is opaque here.
#[verifier::external_body]
fn rsa_key(n: &str, e: &str) -> (r: Option<DecodingKey>)
    ensures
        r is Some <==> (base64_url_decoded(n@) is Some && base64_url_decoded(e@) is Some),
{
    DecodingKey::from_rsa_components(n, e).ok()
}

/// One key of the pool's published key set.
pub struct Jwk {
    pub kid: String,
    pub n: String,
    pub e: String,
}

/// A published key is usable when both of its RSA components decode.
pub open spec fn usable(jwk: Jwk) -> bool {
    base64_url_decoded(jwk.n@) is Some && base64_url_decoded(jwk.e@) is Some
}

/// Whether `jwks` publishes a usable key under `kid`.
pub open spec fn has_usable(jwks: Seq<Jwk>, kid: Seq<char>) -> bool {
    exists|i: int| 0 <= i < jwks.len() && #[trigger] jwks[i].kid@ == kid && usable(jwks[i])
}

proof fn lemma_latest_some<K>(entries: Seq<(String, Option<K>)>, kid: Seq<char>)
    ensures
        latest(entries, kid) is Some <==> exists|i: int| 0 <= i < entries.len() && #[trigger] entries[i].0@
            == kid && entries[i].1 is Some,
    decreases entries.len(),
{
    if entries.len() > 0 {
        let rest = entries.drop_first();
        lemma_latest_some(rest, kid);
        if exists|i: int| 0 <= i < entries.len() && #[trigger] entries[i].0@ == kid && entries[i].1 is Some {
            let i = choose|i: int| 0 <= i < entries.len() && #[trigger] entries[i].0@ == kid && entries[i].1 is Some;
            if i > 0 {
                assert(rest[i - 1] == entries[i]);
            }
        }
        if exists|i: int| 0 <= i < rest.len() && #[trigger] rest[i].0@ == kid && rest[i].1 is Some {
            let i = choose|i: int| 0 <= i < rest.len() && #[trigger] rest[i].0@ == kid && rest[i].1 is Some;
            assert(entries[i + 1] == rest[i]);
        }
    }
}

/// The cache for the key set just fetched at `now`: a token's kid finds a
/// key exactly when the set publishes a usable key under that kid.
pub fn load_keys(jwks: Vec<Jwk>, now: u64) -> (r: KeyCache<DecodingKey>)
    ensures
        r.fetched_at == now,
        forall|kid: Seq<char>| (#[trigger] find_key(r.keys@, kid) is Some) <==> has_usable(jwks@, kid),
{
    let mut entries: Vec<(String, Option<DecodingKey>)> = Vec::new();
    let mut i: usize = 0;
    while i < jwks.len()
        invariant
            i <= jwks@.len(),
            entries@.len() == i,
            forall|j: int| 0 <= j < i ==> (#[trigger] entries@[j]).0@ == jwks@[j].kid@ && (entries@[j].1
                is Some <==> usable(jwks@[j])),
        decreases jwks@.len() - i,
    {
        let jwk = &jwks[i];
        let key = rsa_key(jwk.n.as_str(), jwk.e.as_str());
        entries.push((jwk.kid.clone(), key));
        i = i + 1;
    }
    let ghost es = entries@;
    let r = KeyCache::from_entries(entries, now);
    proof {
        assert forall|kid: Seq<char>| (#[trigger] find_key(r.keys@, kid) is Some) <==> has_usable(jwks@, kid) by {
            lemma_latest_some(es, kid);
            if has_usable(jwks@, kid) {
                let j = choose|j: int| 0 <= j < jwks@.len() && #[trigger] jwks@[j].kid@ == kid && usable(jwks@[j]);
                assert(es[j].0@ == kid && es[j].1 is Some);
            }
            if exists|j: int| 0 <= j < es.len() && #[trigger] es[j].0@ == kid && es[j].1 is Some {
                let j = choose|j: int| 0 <= j < es.len() && #[trigger] es[j].0@ == kid && es[j].1 is Some;
                assert(jwks@[j].kid@ == kid && usable(jwks@[j]));
            }
        }
    }
    r
}

/// How long ago the set was fetched; a clock that seems to run back counts
/// as no time passed.
pub open spec fn key_age<K>(cache: KeyCache<K>, now: u64) -> int {
    if now >= cache.fetched_at {
        now - cache.fetched_at
    } else {
        0
    }
}

/// The key set is used for an hour; a token naming a kid the set lacks has
/// it fetched again, but at most once a minute.
pub proof fn law_keys_are_refetched_sparingly<K>(cache: KeyCache<K>, kid: Seq<char>, now: u64)
    ensures
        key_age(cache, now) < REFETCH_INTERVAL_SECS ==> !(lookup_spec(Some(cache), kid, now) is Fetch),
        key_age(cache, now) < CACHE_TTL_SECS && find_key(cache.keys@, kid) is Some ==> lookup_spec(
            Some(cache),
            kid,
            now,
        ) == Lookup::Cached(find_key(cache.keys@, kid)->0),
        key_age(cache, now) >= CACHE_TTL_SECS ==> lookup_spec(Some(cache), kid, now) is Fetch,
{
}

/// A claim's value, as far as reading `IdClaims` needs it: a string, null, an
/// array (each item a string or not) or anything else.
pub enum ClaimValue {
    Text(String),
    Null,
    List(Vec<Option<String>>),
    Other,
}

/// What a `ClaimValue` holds, as plain values.
pub enum ClaimView {
    Text(Seq<char>),
    Null,
    List(Seq<Option<Seq<char>>>),
    Other,
}

pub open spec fn opt_view(o: Option<String>) -> Option<Seq<char>> {
    match o {
        Some(s) => Some(s@),
        None => None,
    }
}

pub open spec fn claim_view(v: ClaimValue) -> ClaimView {
    match v {
        ClaimValue::Text(s) => ClaimView::Text(s@),
        ClaimValue::Null => ClaimView::Null,
        ClaimValue::List(items) => ClaimView::List(items@.map_values(|o: Option<String>| opt_view(o))),
        ClaimValue::Other => ClaimView::Other,
    }
}

pub open spec fn claims_view(members: Seq<(String, ClaimValue)>) -> Seq<(Seq<char>, ClaimView)> {
    members.map_values(|m: (String, ClaimValue)| (m.0@, claim_view(m.1)))
}

/// The members of a token's payload as `jsonwebtoken::decode` reads them into
/// a JSON object (URL-safe base64 of the middle segment), in key order; `None`
/// where it cannot.
pub uninterp spec fn jwt_claims(token: Seq<char>) -> Option<Seq<(Seq<char>, ClaimView)>>;

/// The `kid` that `jsonwebtoken::decode_header` reads from a token's header,
/// `Some(None)` where the header names none; `None` where the header cannot be
/// read.
pub uninterp spec fn jwt_header_kid(token: Seq<char>) -> Option<Option<Seq<char>>>;

/// The value of the member `key`, the first where there are several.
pub open spec fn claim(members: Seq<(Seq<char>, ClaimView)>, key: Seq<char>) -> Option<ClaimView>
    decreases members.len(),
{
    if members.len() == 0 {
        None
    } else if members[0].0 == key {
        Some(members[0].1)
    } else {
        claim(members.drop_first(), key)
    }
}

/// Every item of an array is a string.
pub open spec fn all_texts(items: Seq<Option<Seq<char>>>) -> bool {
    forall|i: int| 0 <= i < items.len() ==> (#[trigger] items[i]) is Some
}

/// Where an array of strings holds `s`.
pub open spec fn list_holds(items: Seq<Option<Seq<char>>>, s: Seq<char>) -> bool {
    exists|i: int| 0 <= i < items.len() && items[i] == Some(s)
}

/// What the decoding call is configured to check and that a decoded token
/// shows in its claims: an expiry, an issuer among `issuers` and the audience
/// `audience`, each where the claim is there as a string or an array of
/// strings (the call reads an array with another item as no claim at all).
/// The signature, the algorithm and that the expiry lies ahead are checked
/// too, and are not seen in the claims.
pub open spec fn claims_checked(
    members: Seq<(Seq<char>, ClaimView)>,
    issuers: Seq<Seq<char>>,
    audience: Seq<char>,
) -> bool {
    &&& claim(members, "exp"@) is Some
    &&& match claim(members, "iss"@) {
        Some(ClaimView::Text(i)) => issuers.contains(i),
        Some(ClaimView::List(items)) => all_texts(items) ==> exists|i: Seq<char>|
            #![trigger issuers.contains(i)]
            issuers.contains(i) && list_holds(items, i),
        _ => true,
    }
    &&& match claim(members, "aud"@) {
        Some(ClaimView::Text(a)) => a == audience,
        Some(ClaimView::List(items)) => all_texts(items) ==> list_holds(items, audience),
        _ => true,
    }
}

/// `jsonwebtoken::decode` of `token` into a JSON object under `key`, with
/// `Validation::new(Algorithm::RS256)`, `set_issuer(issuers)` and
/// `set_audience(&[audience])`; each member's value read as a `ClaimValue`,
/// and an error as its message. Per the crate's source, a decoded token has a
/// valid RS256 signature under `key`, an `exp` claim not in the past (by the
/// clock, so that part is left unsaid here), and an issuer and audience among
/// those given wherever the claim is present. Whether a token decodes also
/// depends on the clock, so success is not stated.
#[verifier::external_body]
fn decode_rs256(token: &str, key: &DecodingKey, issuers: &[String; 2], audience: &str) -> (r: Result<
    Vec<(String, ClaimValue)>,
    String,
>)
    ensures
        r matches Ok(c) ==> jwt_claims(token@) == Some(claims_view(c@)) && claims_checked(
            claims_view(c@),
            strings_view(issuers@),
            audience@,
        ),
{
    let mut validation = Validation::new(Algorithm::RS256);
    validation.set_issuer(issuers);
    validation.set_audience(&[audience]);
    let data = decode::<serde_json::Map<String, Value>>(token, key, &validation).map_err(|e| e.to_string())?;
    Ok(data.claims.into_iter().map(|(k, v)| (k, match v {
        Value::String(s) => ClaimValue::Text(s),
        Value::Null => ClaimValue::Null,
        Value::Array(a) => ClaimValue::List(a.iter().map(|i| i.as_str().map(str::to_string)).collect()),
        _ => ClaimValue::Other,
    })).collect())
}

/// `jsonwebtoken::decode_header(token)`'s `kid`, and an error as its message.
#[verifier::external_body]
fn header_kid(token: &str) -> (r: Result<Option<String>, String>)
    ensures
        match r {
            Ok(k) => jwt_header_kid(token@) == Some(opt_view(k)),
            Err(_) => jwt_header_kid(token@) is None,
        },
{
    decode_header(token).map(|header| header.kid).map_err(|e| e.to_string())
}

/// The kid of the key that signed `token`, which picks the key to verify it
/// with.
pub fn token_kid(token: &str) -> (r: Result<String, String>)
    ensures
        match jwt_header_kid(token@) {
            Some(Some(k)) => r matches Ok(s) && s@ == k,
            Some(None) => r matches Err(m) && m@ == "token carries no kid"@,
            None => r matches Err(m) && starts_with(m@, "malformed token: "@),
        },
{
    match header_kid(token) {
        Ok(Some(k)) => Ok(k),
        Ok(None) => Err(String::from_str("token carries no kid")),
        Err(e) => {
            let mut m = String::from_str("malformed token: ");
            append_str(&mut m, e.as_str());
            assert(m@.subrange(0, "malformed token: "@.len() as int) =~= "malformed token: "@);
            Err(m)
        },
    }
}

/// A required string claim: present, and a string.
pub open spec fn required_text(members: Seq<(Seq<char>, ClaimView)>, key: Seq<char>) -> Option<Seq<char>> {
    match claim(members, key) {
        Some(ClaimView::Text(s)) => Some(s),
        _ => None,
    }
}

/// An optional string claim: `Some(None)` where it is missing or null,
/// `None` where it holds anything but a string.
pub open spec fn optional_text(members: Seq<(Seq<char>, ClaimView)>, key: Seq<char>) -> Option<Option<Seq<char>>> {
    match claim(members, key) {
        None => Some(None),
        Some(ClaimView::Null) => Some(None),
        Some(ClaimView::Text(s)) => Some(Some(s)),
        _ => None,
    }
}

/// A claim that lists strings, empty where it is missing; `None` where it
/// holds anything but an array of strings.
pub open spec fn text_list(members: Seq<(Seq<char>, ClaimView)>, key: Seq<char>) -> Option<Seq<Seq<char>>> {
    match claim(members, key) {
        None => Some(Seq::empty()),
        Some(ClaimView::List(items)) => if all_texts(items) {
            Some(items.map_values(|o: Option<Seq<char>>| o.unwrap()))
        } else {
            None
        },
        _ => None,
    }
}

/// `claims` are what `members` say: `sub` and `token_use` as required
/// strings, `cognito:username` and `email` as optional ones, and
/// `cognito:groups` as a list of strings that may be left out.
pub open spec fn claims_read(claims: IdClaims, members: Seq<(Seq<char>, ClaimView)>) -> bool {
    &&& required_text(members, "sub"@) == Some(claims.sub@)
    &&& optional_text(members, "cognito:username"@) == Some(opt_view(claims.username))
    &&& text_list(members, "cognito:groups"@) == Some(strings_view(claims.groups@))
    &&& optional_text(members, "email"@) == Some(opt_view(claims.email))
    &&& required_text(members, "token_use"@) == Some(claims.token_use@)
}

/// Every claim `IdClaims` reads is there in a form it can read.
pub open spec fn claims_readable(members: Seq<(Seq<char>, ClaimView)>) -> bool {
    &&& required_text(members, "sub"@) is Some
    &&& optional_text(members, "cognito:username"@) is Some
    &&& text_list(members, "cognito:groups"@) is Some
    &&& optional_text(members, "email"@) is Some
    &&& required_text(members, "token_use"@) is Some
}

fn claim_at(members: &Vec<(String, ClaimValue)>, key: &str) -> (r: Option<usize>)
    ensures
        match r {
            Some(i) => i < members@.len() && claim(claims_view(members@), key@) == Some(
                claim_view(members@[i as int].1),
            ),
            None => claim(claims_view(members@), key@) is None,
        },
{
    let n = members.len();
    let mut i: usize = 0;
    let ghost view = claims_view(members@);
    assert(view.subrange(0, n as int) =~= view);
    while i < n
        invariant
            n == members@.len() == view.len(),
            view == claims_view(members@),
            i <= n,
            claim(view, key@) == claim(view.subrange(i as int, n as int), key@),
        decreases n - i,
    {
        proof {
            assert(view.subrange(i as int, n as int).drop_first() =~= view.subrange(i + 1, n as int));
        }
        if str_eq(members[i].0.as_str(), key) {
            return Some(i);
        }
        i = i + 1;
    }
    None
}

fn read_required(members: &Vec<(String, ClaimValue)>, key: &str) -> (r: Option<String>)
    ensures
        opt_view(r) == required_text(claims_view(members@), key@),
{
    match claim_at(members, key) {
        Some(i) => match &members[i].1 {
            ClaimValue::Text(s) => Some(s.clone()),
            _ => None,
        },
        None => None,
    }
}

fn read_optional(members: &Vec<(String, ClaimValue)>, key: &str) -> (r: Option<Option<String>>)
    ensures
        match r {
            Some(o) => optional_text(claims_view(members@), key@) == Some(opt_view(o)),
            None => optional_text(claims_view(members@), key@) is None,
        },
{
    match claim_at(members, key) {
        Some(i) => match &members[i].1 {
            ClaimValue::Text(s) => Some(Some(s.clone())),
            ClaimValue::Null => Some(None),
            _ => None,
        },
        None => Some(None),
    }
}

fn read_list(members: &Vec<(String, ClaimValue)>, key: &str) -> (r: Option<Vec<String>>)
    ensures
        match r {
            Some(v) => text_list(claims_view(members@), key@) == Some(strings_view(v@)),
            None => text_list(claims_view(members@), key@) is None,
        },
{
    let i = match claim_at(members, key) {
        Some(i) => i,
        None => {
            let empty: Vec<String> = Vec::new();
            assert(strings_view(empty@) =~= Seq::<Seq<char>>::empty());
            return Some(empty);
        },
    };
    let items = match &members[i].1 {
        ClaimValue::List(items) => items,
        _ => return None,
    };
    let ghost iv = items@.map_values(|o: Option<String>| opt_view(o));
    assert(claim(claims_view(members@), key@) == Some(ClaimView::List(iv)));
    let mut out: Vec<String> = Vec::new();
    let mut j: usize = 0;
    while j < items.len()
        invariant
            iv == items@.map_values(|o: Option<String>| opt_view(o)),
            claim(claims_view(members@), key@) == Some(ClaimView::List(iv)),
            j <= items@.len(),
            forall|t: int| 0 <= t < j ==> (#[trigger] iv[t]) is Some,
            strings_view(out@) == iv.subrange(0, j as int).map_values(|o: Option<Seq<char>>| o.unwrap()),
        decreases items@.len() - j,
    {
        match &items[j] {
            Some(s) => {
                assert(iv[j as int] == Some(s@));
                let copy = s.clone();
                assert(copy@ == s@);
                let ghost before = out@;
                out.push(copy);
                assert(strings_view(out@) =~= strings_view(before).push(s@));
            },
            None => {
                assert(iv[j as int] is None);
                assert(!(forall|t: int| 0 <= t < iv.len() ==> (#[trigger] iv[t]) is Some));
                return None;
            },
        }
        j = j + 1;
        assert(strings_view(out@) =~= iv.subrange(0, j as int).map_values(
            |o: Option<Seq<char>>| o.unwrap(),
        ));
    }
    assert(iv.subrange(0, j as int) =~= iv);
    Some(out)
}

/// The claims `IdClaims` reads from a token's members, where each of them is
/// there in a form it can read.
pub fn claims_from(members: &Vec<(String, ClaimValue)>) -> (r: Result<IdClaims, String>)
    ensures
        r is Ok <==> claims_readable(claims_view(members@)),
        match r {
            Ok(c) => claims_read(c, claims_view(members@)),
            Err(m) => m@ == "token verification failed: unreadable claims"@,
        },
{
    let sub = read_required(members, "sub");
    let username = read_optional(members, "cognito:username");
    let groups = read_list(members, "cognito:groups");
    let email = read_optional(members, "email");
    let token_use = read_required(members, "token_use");
    match (sub, username, groups, email, token_use) {
        (Some(sub), Some(username), Some(groups), Some(email), Some(token_use)) => Ok(
            IdClaims { sub, username, groups, email, token_use },
        ),
        _ => Err(String::from_str("token verification failed: unreadable claims")),
    }
}

/// What the outcome of decoding a token gives: its error, the claims it
/// cannot read, a token that is not an identity, or its identity claims.
pub fn checked_claims(decoded: Result<Vec<(String, ClaimValue)>, String>) -> (r: Result<IdClaims, String>)
    ensures
        match decoded {
            Err(e) => r matches Err(m) && m@ == "token verification failed: "@ + e@,
            Ok(members) => {
                let cv = claims_view(members@);
                if !claims_readable(cv) {
                    r matches Err(m) && m@ == "token verification failed: unreadable claims"@
                } else if required_text(cv, "token_use"@) != Some("id"@) {
                    r matches Err(m) && m@ == "not an ID token"@
                } else {
                    r matches Ok(c) && claims_read(c, cv)
                }
            },
        },
{
    match decoded {
        Err(e) => {
            let mut m = String::from_str("token verification failed: ");
            append_str(&mut m, e.as_str());
            Err(m)
        },
        Ok(members) => {
            let claims = claims_from(&members)?;
            accept_identity(claims)
        },
    }
}

/// Decodes `token` under `key`, accepting `issuers` and the one audience
/// `audience`, and keeps it only as an identity: what comes back has a valid
/// signature, and the claims the decoding call checks.
pub fn verify_with(key: &DecodingKey, issuers: &[String; 2], audience: &str, token: &str) -> (r: Result<
    IdClaims,
    String,
>)
    ensures
        r matches Ok(c) ==> (jwt_claims(token@) matches Some(cv) && claims_checked(
            cv,
            strings_view(issuers@),
            audience@,
        ) && claims_read(c, cv) && c.token_use@ == "id"@),
{
    checked_claims(decode_rs256(token, key, issuers, audience))
}

/// Signature algorithm, expiry, issuer and audience, all as Cognito issues
/// them, and that the token is an ID token: the claims of `token` when it
/// passes, under the pool's signing key `key`.
pub fn verify_id_token(token: &str, key: &DecodingKey, config: &JwksConfig) -> (r: Result<IdClaims, String>)
    ensures
        r matches Ok(c) ==> (jwt_claims(token@) matches Some(cv) && claims_checked(
            cv,
            strings_view(config.issuers@),
            config.client_id@,
        ) && claims_read(c, cv) && c.token_use@ == "id"@),
{
    verify_with(key, &config.issuers, config.client_id.as_str(), token)
}

/// The value of the member `key`, written as JSON.
pub open spec fn rendered_member(members: Seq<(Seq<char>, Seq<char>)>, key: Seq<char>) -> Option<Seq<char>>
    decreases members.len(),
{
    if members.len() == 0 {
        None
    } else if members[0].0 == key {
        Some(members[0].1)
    } else {
        rendered_member(members.drop_first(), key)
    }
}

/// A claim as a rejection shows it: its JSON, or `-` where there is none.
pub open spec fn shown(object: Option<Seq<(Seq<char>, Seq<char>)>>, key: Seq<char>) -> Seq<char> {
    match object {
        Some(members) => match rendered_member(members, key) {
            Some(v) => v,
            None => "-"@,
        },
        None => "-"@,
    }
}

/// The unverified summary of a token: the issuer, audience, use and expiry
/// its payload claims, or that the payload cannot be read.
pub open spec fn description(token: Seq<char>) -> Seq<char> {
    match second_field(token, '.') {
        Some(payload) => match base64_url_decoded(payload) {
            Some(bytes) => match json_rendered(bytes) {
                Some(object) => "token iss="@ + shown(object, "iss"@) + " aud="@ + shown(object, "aud"@)
                    + " token_use="@ + shown(object, "token_use"@) + " exp="@ + shown(object, "exp"@),
                None => "payload unreadable"@,
            },
            None => "payload unreadable"@,
        },
        None => "payload unreadable"@,
    }
}

fn shown_of(object: &Option<Vec<(String, String)>>, key: &str) -> (r: String)
    ensures
        r@ == shown(
            match object {
                Some(ms) => Some(pairs_view(ms@)),
                None => None,
            },
            key@,
        ),
{
    proof {
        reveal_strlit("-");
    }
    let members = match object {
        Some(ms) => ms,
        None => return String::from_str("-"),
    };
    let n = members.len();
    let mut i: usize = 0;
    let ghost view = pairs_view(members@);
    assert(view.subrange(0, n as int) =~= view);
    while i < n
        invariant
            n == members@.len() == view.len(),
            view == pairs_view(members@),
            match object {
                Some(ms) => ms@ == members@,
                None => false,
            },
            i <= n,
            rendered_member(view, key@) == rendered_member(view.subrange(i as int, n as int), key@),
        decreases n - i,
    {
        proof {
            assert(view.subrange(i as int, n as int).drop_first() =~= view.subrange(i + 1, n as int));
        }
        if str_eq(members[i].0.as_str(), key) {
            return members[i].1.clone();
        }
        i = i + 1;
    }
    String::from_str("-")
}

/// Unverified summary of a token, for diagnosing a rejection: its claims are
/// only ever logged, never trusted.
pub fn describe(token: &str) -> (r: String)
    ensures
        r@ == description(token@),
{
    let unreadable = String::from_str("payload unreadable");
    let payload = match second_field_of(token, '.') {
        Some(p) => p,
        None => return unreadable,
    };
    let bytes = match decode_base64_url(payload.as_str()) {
        Some(b) => b,
        None => return unreadable,
    };
    let object = match parse_json_rendered(bytes.as_slice()) {
        Some(o) => o,
        None => return unreadable,
    };
    let mut r = String::from_str("token iss=");
    append_str(&mut r, shown_of(&object, "iss").as_str());
    append_str(&mut r, " aud=");
    append_str(&mut r, shown_of(&object, "aud").as_str());
    append_str(&mut r, " token_use=");
    append_str(&mut r, shown_of(&object, "token_use").as_str());
    append_str(&mut r, " exp=");
    append_str(&mut r, shown_of(&object, "exp").as_str());
    r
}

} // verus!
