//! Sessions: who the signed-in caller is, the cookies that carry their
//! tokens, and the usernames a token refresh derives SECRET_HASH from.

use vstd::prelude::*;

use crate::codec::{base64_url_decoded, decode_base64_url, json_object, parse_json_object, members_view};
use crate::config::Config;
use crate::jwks::IdClaims;
use crate::state::{secret_hash, secret_hash_spec};
use crate::text::{before_first, chars_of, first_field, str_eq, string_of};

verus! {

pub const ID_COOKIE: &'static str = "cum_id";

pub const ACCESS_COOKIE: &'static str = "cum_at";

pub const REFRESH_COOKIE: &'static str = "cum_rt";

pub const CHALLENGE_COOKIE: &'static str = "cum_challenge";

/// How long the refresh-token cookie is kept.
pub const REFRESH_MAX_AGE_DAYS: i64 = 30;

/// Who the caller is, as their verified ID token says.
#[derive(Debug)]
pub struct Session {
    /// Cognito username, usable as the Username of admin APIs.
    pub username: String,
    pub sub: String,
    pub email: Option<String>,
    pub groups: Vec<String>,
    pub is_admin: bool,
    pub access_token: String,
}

pub open spec fn contains_name(names: Seq<String>, name: Seq<char>) -> bool {
    exists|i: int| 0 <= i < names.len() && #[trigger] names[i]@ == name
}

pub fn has_name(names: &Vec<String>, name: &str) -> (r: bool)
    ensures
        r == contains_name(names@, name@),
{
    let mut i: usize = 0;
    while i < names.len()
        invariant
            i <= names@.len(),
            forall|j: int| 0 <= j < i ==> #[trigger] names@[j]@ != name@,
        decreases names@.len() - i,
    {
        if str_eq(names[i].as_str(), name) {
            return true;
        }
        i = i + 1;
    }
    false
}

impl Session {
    /// Whether `username` names the caller, by username or by sub.
    pub fn is_self(&self, username: &str) -> (r: bool)
        ensures
            r == (self.username@ == username@ || self.sub@ == username@),
    {
        str_eq(self.username.as_str(), username) || str_eq(self.sub.as_str(), username)
    }

    /// The session a verified ID token describes: the username falls back to
    /// the sub, and membership of `admin_group` makes an admin.
    pub fn from_claims(claims: IdClaims, admin_group: &str, access_token: &str) -> (r: Session)
        ensures
            r.username@ == match claims.username {
                Some(u) => u@,
                None => claims.sub@,
            },
            r.sub == claims.sub,
            r.email == claims.email,
            r.groups == claims.groups,
            r.is_admin == contains_name(claims.groups@, admin_group@),
            r.access_token@ == access_token@,
    {
        let is_admin = has_name(&claims.groups, admin_group);
        let username = match claims.username {
            Some(u) => u,
            None => claims.sub.clone(),
        };
        Session {
            username,
            sub: claims.sub,
            email: claims.email,
            groups: claims.groups,
            is_admin,
            access_token: String::from_str(access_token),
        }
    }
}

/// Cookie lifetime for the ID and access tokens: what Cognito says they last,
/// but never under a minute.
pub fn token_max_age(expires_in: i32) -> (r: i64)
    ensures
        r == if expires_in < 60 {
            60
        } else {
            expires_in as int
        },
{
    if expires_in < 60 {
        60
    } else {
        expires_in as i64
    }
}

/// What follows the first `sep` in `s`, or `None` when there is none.
pub open spec fn after_first(s: Seq<char>, sep: char) -> Option<Seq<char>>
    decreases s.len(),
{
    if s.len() == 0 {
        None
    } else if s[0] == sep {
        Some(s.drop_first())
    } else {
        after_first(s.drop_first(), sep)
    }
}

/// The second item `s.split(sep)` yields.
pub open spec fn second_field(s: Seq<char>, sep: char) -> Option<Seq<char>> {
    match after_first(s, sep) {
        Some(rest) => Some(before_first(rest, sep)),
        None => None,
    }
}

pub(crate) fn second_field_of(s: &str, sep: char) -> (r: Option<String>)
    ensures
        match r {
            Some(f) => second_field(s@, sep) == Some(f@),
            None => second_field(s@, sep) is None,
        },
{
    let cs = chars_of(s);
    let n = cs.len();
    let mut i: usize = 0;
    assert(cs@.subrange(0, n as int) =~= cs@);
    while i < n
        invariant
            n == cs@.len(),
            cs@ == s@,
            i <= n,
            after_first(s@, sep) == after_first(cs@.subrange(i as int, n as int), sep),
        decreases n - i,
    {
        proof {
            assert(cs@.subrange(i as int, n as int).drop_first() =~= cs@.subrange(i + 1, n as int));
        }
        if cs[i] == sep {
            let rest = string_of(cs.as_slice(), i + 1, n);
            return Some(first_field(rest.as_str(), sep));
        }
        i = i + 1;
    }
    None
}

/// The claims of a JWT read without verifying it: its payload, decoded.
pub open spec fn unverified_claims(token: Seq<char>) -> Option<Seq<(Seq<char>, Option<Seq<char>>)>> {
    match second_field(token, '.') {
        Some(payload) => match base64_url_decoded(payload) {
            Some(bytes) => json_object(bytes),
            None => None,
        },
        None => None,
    }
}

/// Reads a JWT payload without verifying it, only to recover a username.
pub fn decode_unverified(token: &str) -> (r: Option<Vec<(String, Option<String>)>>)
    ensures
        match r {
            Some(members) => unverified_claims(token@) == Some(members_view(members@)),
            None => unverified_claims(token@) is None,
        },
{
    let payload = second_field_of(token, '.')?;
    let bytes = decode_base64_url(payload.as_str())?;
    parse_json_object(bytes.as_slice())
}

/// The string value of the member `key`, when it has one.
pub open spec fn string_member(members: Seq<(Seq<char>, Option<Seq<char>>)>, key: Seq<char>) -> Option<Seq<char>>
    decreases members.len(),
{
    if members.len() == 0 {
        None
    } else if members[0].0 == key {
        members[0].1
    } else {
        string_member(members.drop_first(), key)
    }
}

fn string_member_of(members: &Vec<(String, Option<String>)>, key: &str) -> (r: Option<String>)
    ensures
        match r {
            Some(v) => string_member(members_view(members@), key@) == Some(v@),
            None => string_member(members_view(members@), key@) is None,
        },
{
    let n = members.len();
    let mut i: usize = 0;
    let ghost view = members_view(members@);
    assert(view.subrange(0, n as int) =~= view);
    while i < n
        invariant
            n == members@.len() == view.len(),
            view == members_view(members@),
            i <= n,
            string_member(view, key@) == string_member(view.subrange(i as int, n as int), key@),
        decreases n - i,
    {
        proof {
            assert(view.subrange(i as int, n as int).drop_first() =~= view.subrange(i + 1, n as int));
        }
        if str_eq(members[i].0.as_str(), key) {
            return match &members[i].1 {
                Some(v) => Some(v.clone()),
                None => None,
            };
        }
        i = i + 1;
    }
    None
}

/// Usernames to try when deriving SECRET_HASH for a refresh, in order:
/// the `cognito:username` and then the `sub` of the previous ID token, each
/// once; the empty name when there is no secret or neither is known.
pub open spec fn candidates_spec(has_secret: bool, previous_id_token: Option<Seq<char>>) -> Seq<Seq<char>> {
    if !has_secret {
        seq![Seq::<char>::empty()]
    } else {
        let claims = match previous_id_token {
            Some(t) => unverified_claims(t),
            None => None,
        };
        let (username, sub) = match claims {
            Some(ms) => (string_member(ms, "cognito:username"@), string_member(ms, "sub"@)),
            None => (None, None),
        };
        let first = match username {
            Some(u) => seq![u],
            None => Seq::empty(),
        };
        let both = match sub {
            Some(s) if !first.contains(s) => first.push(s),
            _ => first,
        };
        if both.len() == 0 {
            seq![Seq::<char>::empty()]
        } else {
            both
        }
    }
}

/// Usernames to try when deriving SECRET_HASH, in order.
///
/// Depending on the pool, Cognito derives the hash from the username or from
/// the sub, and only one of them is accepted. Without a client secret there is
/// no hash to derive, so a single attempt is all there is to make.
pub fn secret_hash_candidates(has_secret: bool, previous_id_token: Option<&str>) -> (r: Vec<String>)
    ensures
        r@.map_values(|s: String| s@) == candidates_spec(
            has_secret,
            match previous_id_token {
                Some(t) => Some(t@),
                None => None,
            },
        ),
{
    let mut candidates: Vec<String> = Vec::new();
    if !has_secret {
        candidates.push(String::new());
        assert(candidates@.map_values(|s: String| s@) =~= seq![Seq::<char>::empty()]);
        return candidates;
    }
    let claims = match previous_id_token {
        Some(t) => decode_unverified(t),
        None => None,
    };
    let (username, sub) = match &claims {
        Some(ms) => (string_member_of(ms, "cognito:username"), string_member_of(ms, "sub")),
        None => (None, None),
    };
    let ghost tok = match previous_id_token {
        Some(t) => Some(t@),
        None => None,
    };
    let ghost claims_spec = match tok {
        Some(t) => unverified_claims(t),
        None => None,
    };
    let ghost u_spec = match claims_spec {
        Some(ms) => string_member(ms, "cognito:username"@),
        None => None,
    };
    let ghost s_spec = match claims_spec {
        Some(ms) => string_member(ms, "sub"@),
        None => None,
    };
    assert(match username {
        Some(u) => u_spec == Some(u@),
        None => u_spec is None,
    });
    assert(match sub {
        Some(x) => s_spec == Some(x@),
        None => s_spec is None,
    });
    match username {
        Some(u) => candidates.push(u),
        None => {},
    }
    let ghost first = candidates@.map_values(|s: String| s@);
    assert(first =~= match u_spec {
        Some(u) => seq![u],
        None => Seq::<Seq<char>>::empty(),
    });
    assert(first.len() <= 1);
    match sub {
        Some(s) => {
            let seen = candidates.len() == 1 && str_eq(candidates[0].as_str(), s.as_str());
            assert(first.contains(s@) <==> seen) by {
                if first.contains(s@) {
                    let k = choose|k: int| 0 <= k < first.len() && first[k] == s@;
                    assert(k == 0);
                }
                if seen {
                    assert(first[0] == s@);
                }
            }
            if !seen {
                candidates.push(s);
                assert(candidates@.map_values(|s: String| s@) =~= first.push(s@));
            }
        },
        None => {},
    }
    let ghost both = candidates@.map_values(|s: String| s@);
    assert(both =~= match s_spec {
        Some(x) if !first.contains(x) => first.push(x),
        _ => first,
    });
    if candidates.len() == 0 {
        candidates.push(String::new());
    }
    assert(candidates@.map_values(|s: String| s@) =~= candidates_spec(
        has_secret,
        match previous_id_token {
            Some(t) => Some(t@),
            None => None,
        },
    ));
    candidates
}

/// The tokens a sign-in or a refresh handed out.
pub struct Tokens {
    pub id_token: Option<String>,
    pub access_token: Option<String>,
    pub refresh_token: Option<String>,
    /// Seconds the ID and access tokens last.
    pub expires_in: i32,
}

/// A cookie to set: name, value and lifetime in seconds.
pub struct CookieWrite {
    pub name: &'static str,
    pub value: String,
    pub max_age_secs: i64,
}

/// The attributes every session cookie carries.
pub struct CookieAttributes {
    /// Out of reach of the page's scripts.
    pub http_only: bool,
    /// Sent on a navigation from another site, never on its subrequests.
    pub same_site_lax: bool,
    /// Sent over HTTPS only.
    pub secure: bool,
    pub path: &'static str,
}

/// Session cookies are for the server alone, for the whole site, and marked
/// `Secure` where the deployment serves HTTPS.
pub fn cookie_attributes(secure: bool) -> (r: CookieAttributes)
    ensures
        r.http_only,
        r.same_site_lax,
        r.secure == secure,
        r.path@ == "/"@,
{
    proof {
        reveal_strlit("/");
    }
    CookieAttributes { http_only: true, same_site_lax: true, secure, path: "/" }
}

/// The cookies that keep the tokens, in this order: the ID and access tokens
/// for as long as they last (at least a minute), the refresh token for
/// `REFRESH_MAX_AGE_DAYS` days; each only when it was handed out. The
/// challenge cookie goes once tokens are saved.
pub open spec fn token_cookies_spec(t: Tokens) -> Seq<(Seq<char>, Seq<char>, int)> {
    let age = if t.expires_in < 60 {
        60
    } else {
        t.expires_in as int
    };
    (match t.id_token {
        Some(v) => seq![("cum_id"@, v@, age)],
        None => Seq::empty(),
    }) + (match t.access_token {
        Some(v) => seq![("cum_at"@, v@, age)],
        None => Seq::empty(),
    }) + (match t.refresh_token {
        Some(v) => seq![("cum_rt"@, v@, REFRESH_MAX_AGE_DAYS * 86400)],
        None => Seq::empty(),
    })
}

pub fn token_cookies(tokens: &Tokens) -> (r: Vec<CookieWrite>)
    ensures
        r@.map_values(|c: CookieWrite| (c.name@, c.value@, c.max_age_secs as int)) == token_cookies_spec(
            *tokens,
        ),
{
    let age = token_max_age(tokens.expires_in);
    let mut r: Vec<CookieWrite> = Vec::new();
    let ghost v = |c: CookieWrite| (c.name@, c.value@, c.max_age_secs as int);
    match &tokens.id_token {
        Some(t) => r.push(CookieWrite { name: ID_COOKIE, value: t.clone(), max_age_secs: age }),
        None => {},
    }
    let ghost first = r@.map_values(v);
    match &tokens.access_token {
        Some(t) => r.push(CookieWrite { name: ACCESS_COOKIE, value: t.clone(), max_age_secs: age }),
        None => {},
    }
    let ghost second = r@.map_values(v);
    match &tokens.refresh_token {
        Some(t) => r.push(
            CookieWrite { name: REFRESH_COOKIE, value: t.clone(), max_age_secs: REFRESH_MAX_AGE_DAYS * 86400 },
        ),
        None => {},
    }
    proof {
        reveal_strlit("cum_id");
        reveal_strlit("cum_at");
        reveal_strlit("cum_rt");
    }
    assert(r@.map_values(v) =~= token_cookies_spec(*tokens));
    r
}

/// The tokens a refresh stands for: what Cognito sent, with the refresh token
/// that was used, which a refreshed answer does not carry again.
pub fn refreshed(expires_in: i32, id_token: Option<String>, access_token: Option<String>, refresh_token: &str) -> (r:
    Tokens)
    ensures
        r.expires_in == expires_in,
        r.id_token == id_token,
        r.access_token == access_token,
        r.refresh_token matches Some(t) && t@ == refresh_token@,
{
    Tokens { id_token, access_token, refresh_token: Some(String::from_str(refresh_token)), expires_in }
}

/// A refresh always has a name to try, and never tries one twice.
pub proof fn law_candidates_are_distinct(has_secret: bool, previous_id_token: Option<Seq<char>>)
    ensures
        candidates_spec(has_secret, previous_id_token).len() >= 1,
        forall|i: int, j: int|
            0 <= i < j < candidates_spec(has_secret, previous_id_token).len() ==> #[trigger] candidates_spec(
                has_secret,
                previous_id_token,
            )[i] != #[trigger] candidates_spec(has_secret, previous_id_token)[j],
{
    let c = candidates_spec(has_secret, previous_id_token);
    assert forall|i: int, j: int| 0 <= i < j < c.len() implies #[trigger] c[i] != #[trigger] c[j] by {
        if has_secret && c.len() == 2 {
            assert(c[0] != c[1]) by {
                let first = seq![c[0]];
                assert(!first.contains(c[1]) ==> c[0] != c[1]) by {
                    if c[0] == c[1] {
                        assert(first[0] == c[1]);
                    }
                }
            }
        }
    }
}

/// A token refresh in progress: the usernames SECRET_HASH may be derived
/// from, in the order they are tried, and how many were tried. Cognito
/// accepts the hash of only one of them, so each is tried in turn until one
/// answers with tokens.
pub struct RefreshAttempts {
    pub candidates: Vec<String>,
    pub tried: usize,
}

/// The auth parameters of a refresh whose SECRET_HASH is derived from
/// `username`.
pub open spec fn refresh_parameters_spec(config: Config, refresh_token: Seq<char>, username: Seq<char>) -> Seq<
    (Seq<char>, Seq<char>),
> {
    match secret_hash_spec(config, username) {
        Some(h) => seq![("REFRESH_TOKEN"@, refresh_token), ("SECRET_HASH"@, h)],
        None => seq![("REFRESH_TOKEN"@, refresh_token)],
    }
}

impl RefreshAttempts {
    pub fn new(has_secret: bool, previous_id_token: Option<&str>) -> (r: RefreshAttempts)
        ensures
            r.tried == 0,
            r.candidates@.map_values(|s: String| s@) == candidates_spec(
                has_secret,
                match previous_id_token {
                    Some(t) => Some(t@),
                    None => None,
                },
            ),
    {
        RefreshAttempts { candidates: secret_hash_candidates(has_secret, previous_id_token), tried: 0 }
    }

    /// The auth parameters of the next attempt, or `None` once every
    /// candidate was tried and the refresh has failed.
    pub fn next_request(&mut self, config: &Config, refresh_token: &str) -> (r: Option<Vec<(String, String)>>)
        ensures
            final(self).candidates == old(self).candidates,
            old(self).tried < old(self).candidates@.len() ==> (final(self).tried == old(self).tried + 1 && (r matches Some(p)
                && p@.map_values(|e: (String, String)| (e.0@, e.1@)) == refresh_parameters_spec(
                *config,
                refresh_token@,
                old(self).candidates@[old(self).tried as int]@,
            ))),
            old(self).tried >= old(self).candidates@.len() ==> (r is None && final(self).tried == old(self).tried),
    {
        if self.tried >= self.candidates.len() {
            return None;
        }
        let username = self.candidates[self.tried].as_str();
        let mut parameters: Vec<(String, String)> = Vec::new();
        parameters.push((String::from_str("REFRESH_TOKEN"), String::from_str(refresh_token)));
        match secret_hash(config, username) {
            Some(h) => parameters.push((String::from_str("SECRET_HASH"), h)),
            None => {},
        }
        proof {
            let v = |e: (String, String)| (e.0@, e.1@);
            assert(parameters@.map_values(v) =~= refresh_parameters_spec(*config, refresh_token@, username@));
        }
        self.tried = self.tried + 1;
        Some(parameters)
    }
}

/// The token cookies a request arrived with.
pub struct SessionCookies {
    pub id_token: Option<String>,
    pub access_token: Option<String>,
    pub refresh_token: Option<String>,
}

/// The next thing to do while reading a session from its cookies.
pub enum LoadStep {
    /// Verify the ID token and build the session from these tokens.
    Verify { id_token: String, access_token: String },
    /// Exchange the refresh token for new tokens.
    Refresh { refresh_token: String },
    /// There is no session; the token cookies go first when `clear_cookies`.
    NoSession { clear_cookies: bool },
}

fn copied(s: &String) -> (r: String)
    ensures
        r == *s,
{
    s.clone()
}

impl SessionCookies {
    /// Where reading a session starts: the tokens the cookies hold, when both
    /// are there; otherwise what a rejection leads to.
    pub fn start(&self) -> (r: LoadStep)
        ensures
            match (self.id_token, self.access_token) {
                (Some(i), Some(a)) => r == (LoadStep::Verify { id_token: i, access_token: a }),
                _ => r == self.after_rejection_spec(),
            },
    {
        match (&self.id_token, &self.access_token) {
            (Some(i), Some(a)) => LoadStep::Verify { id_token: copied(i), access_token: copied(a) },
            _ => self.after_rejection(),
        }
    }

    pub open spec fn after_rejection_spec(&self) -> LoadStep {
        match self.refresh_token {
            Some(t) => LoadStep::Refresh { refresh_token: t },
            None => LoadStep::NoSession { clear_cookies: false },
        }
    }

    /// What follows when the cookies' own tokens are missing or rejected: a
    /// refresh when there is a refresh token, no session otherwise.
    pub fn after_rejection(&self) -> (r: LoadStep)
        ensures
            r == self.after_rejection_spec(),
    {
        match &self.refresh_token {
            Some(t) => LoadStep::Refresh { refresh_token: copied(t) },
            None => LoadStep::NoSession { clear_cookies: false },
        }
    }
}

/// What follows a refresh: a failed one clears the cookies; new tokens are
/// saved by the caller and then verified, once, when both came back.
pub fn after_refresh(tokens: Option<&Tokens>) -> (r: LoadStep)
    ensures
        match tokens {
            None => r == (LoadStep::NoSession { clear_cookies: true }),
            Some(t) => match (t.id_token, t.access_token) {
                (Some(i), Some(a)) => r == (LoadStep::Verify { id_token: i, access_token: a }),
                _ => r == (LoadStep::NoSession { clear_cookies: false }),
            },
        },
{
    match tokens {
        None => LoadStep::NoSession { clear_cookies: true },
        Some(t) => match (&t.id_token, &t.access_token) {
            (Some(i), Some(a)) => LoadStep::Verify { id_token: copied(i), access_token: copied(a) },
            _ => LoadStep::NoSession { clear_cookies: false },
        },
    }
}

} // verus!
