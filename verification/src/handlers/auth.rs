//! Sign-in: which challenge comes next, and what answers it.

use vstd::prelude::*;

use crate::attributes::{find, position};
use crate::codec::{json_strings, parse_json_strings, strings_view};
use crate::config::Config;
use crate::error::{entry, entry_with, says, ApiError, TextView, BAD_REQUEST};
use crate::state::{secret_hash, secret_hash_spec};
use crate::text::{append_str, has_prefix, starts_with, str_eq, string_of, trim, trimmed, chars_of};

verus! {

/// Cognito only offers a passkey to a sign-in that asks for one by name.
pub const WEB_AUTHN: &'static str = "WEB_AUTHN";

/// Challenges this app can answer. Anything else is sent back as unsupported.
pub open spec fn supported(name: Seq<char>) -> bool {
    ||| name == "NEW_PASSWORD_REQUIRED"@
    ||| name == "SMS_MFA"@
    ||| name == "EMAIL_OTP"@
    ||| name == "SOFTWARE_TOKEN_MFA"@
    ||| name == "SELECT_MFA_TYPE"@
    ||| name == "WEB_AUTHN"@
}

pub fn is_supported(name: &str) -> (r: bool)
    ensures
        r == supported(name@),
{
    str_eq(name, "NEW_PASSWORD_REQUIRED") || str_eq(name, "SMS_MFA") || str_eq(name, "EMAIL_OTP")
        || str_eq(name, "SOFTWARE_TOKEN_MFA") || str_eq(name, "SELECT_MFA_TYPE") || str_eq(
        name,
        "WEB_AUTHN",
    )
}

/// A pending challenge, kept between requests. The Cognito session string
/// never reaches the browser.
pub struct StoredChallenge {
    pub name: String,
    pub session: String,
    pub username: String,
    pub required_attributes: Vec<String>,
    pub mfa_options: Vec<String>,
    pub destination: Option<String>,
    /// Needed on the way out and never again, and a cookie holds 4 KB in
    /// total: this one travels in the response body alone.
    pub credential_request_options: Option<String>,
}

/// What the browser is told about a pending challenge.
pub struct ChallengeView {
    pub name: String,
    pub required_attributes: Vec<String>,
    pub mfa_options: Vec<String>,
    pub destination: Option<String>,
    pub credential_request_options: Option<String>,
}

fn copy_opt(o: &Option<String>) -> (r: Option<String>)
    ensures
        r == *o,
{
    match o {
        Some(s) => Some(s.clone()),
        None => None,
    }
}

fn copy_strings(v: &Vec<String>) -> (r: Vec<String>)
    ensures
        r@ == v@,
{
    let mut r: Vec<String> = Vec::new();
    let mut i: usize = 0;
    while i < v.len()
        invariant
            i <= v@.len(),
            r@ == v@.subrange(0, i as int),
        decreases v@.len() - i,
    {
        r.push(v[i].clone());
        i = i + 1;
    }
    assert(v@.subrange(0, v@.len() as int) =~= v@);
    r
}

impl ChallengeView {
    pub fn from(challenge: &StoredChallenge) -> (r: ChallengeView)
        ensures
            r.name == challenge.name,
            r.required_attributes@ == challenge.required_attributes@,
            r.mfa_options@ == challenge.mfa_options@,
            r.destination == challenge.destination,
            r.credential_request_options == challenge.credential_request_options,
    {
        ChallengeView {
            name: challenge.name.clone(),
            required_attributes: copy_strings(&challenge.required_attributes),
            mfa_options: copy_strings(&challenge.mfa_options),
            destination: copy_opt(&challenge.destination),
            credential_request_options: copy_opt(&challenge.credential_request_options),
        }
    }
}

pub enum AuthOutcome {
    SignedIn,
    Challenge { challenge: ChallengeView },
}

pub struct LoginRequest {
    pub username: String,
    pub password: String,
}

/// The answer to a pending challenge; which fields matter depends on it.
#[derive(Default)]
pub struct ChallengeRequest {
    pub new_password: Option<String>,
    pub confirm_password: Option<String>,
    pub code: Option<String>,
    pub mfa_type: Option<String>,
    pub credential: Option<String>,
    pub user_attributes: Vec<(String, String)>,
}

/// The sign-in a login asks for, once its input is checked: the username as
/// typed but trimmed, and a password that is not empty.
pub fn login_input(body: &LoginRequest) -> (r: Result<String, ApiError>)
    ensures
        trim(body.username@).len() == 0 ==> (r matches Err(e) && says(
            e,
            BAD_REQUEST,
            entry("error_username_required"@),
        )),
        trim(body.username@).len() > 0 && body.password@.len() == 0 ==> (r matches Err(e) && says(
            e,
            BAD_REQUEST,
            entry("error_password_required"@),
        )),
        trim(body.username@).len() > 0 && body.password@.len() > 0 ==> (r matches Ok(u) && u@ == trim(
            body.username@,
        )),
{
    let username = trimmed(body.username.as_str());
    if username.as_str().unicode_len() == 0 {
        return Err(ApiError::rejected("error_username_required"));
    }
    if body.password.as_str().unicode_len() == 0 {
        return Err(ApiError::rejected("error_password_required"));
    }
    Ok(username)
}

/// A passkey sign-in goes on only when it signed in outright or Cognito
/// offered the WEB_AUTHN challenge; a user without a passkey is answered with
/// the factors they do have, none of which this button can go on with.
pub fn passkey_offered(signed_in: bool, offered: Option<&str>) -> (r: Result<(), ApiError>)
    ensures
        r is Ok <==> (signed_in || (offered matches Some(o) && o@ == "WEB_AUTHN"@)),
        r matches Err(e) ==> says(e, BAD_REQUEST, entry("error_passkey_unavailable"@)),
{
    if signed_in {
        return Ok(());
    }
    match offered {
        Some(o) => if str_eq(o, WEB_AUTHN) {
            return Ok(());
        },
        None => {},
    }
    Err(ApiError::rejected("error_passkey_unavailable"))
}

/// The account an alias sign-in resolved to, which is the name every later
/// call has to use. The password flows report it as `USER_ID_FOR_SRP`;
/// choice-based authentication, where passkeys live, is not SRP and uses
/// `USERNAME`.
pub open spec fn resolved_spec(parameters: Seq<(String, String)>, typed: Seq<char>) -> Seq<char> {
    match find(parameters, "USER_ID_FOR_SRP"@) {
        Some(v) => v@,
        None => match find(parameters, "USERNAME"@) {
            Some(v) => v@,
            None => typed,
        },
    }
}

pub fn resolved_username(parameters: &Vec<(String, String)>, typed: &str) -> (r: String)
    ensures
        r@ == resolved_spec(parameters@, typed@),
{
    match position(parameters, "USER_ID_FOR_SRP") {
        Some(i) => parameters[i].1.clone(),
        None => match position(parameters, "USERNAME") {
            Some(i) => parameters[i].1.clone(),
            None => String::from_str(typed),
        },
    }
}

/// `s` with every leading copy of `prefix` taken off: `trim_start_matches`.
pub open spec fn strip_prefixes(s: Seq<char>, prefix: Seq<char>) -> Seq<char>
    decreases s.len(),
{
    if prefix.len() > 0 && starts_with(s, prefix) {
        strip_prefixes(s.subrange(prefix.len() as int, s.len() as int), prefix)
    } else {
        s
    }
}

fn strip_prefixes_of(s: &str, prefix: &str) -> (r: String)
    requires
        prefix@.len() > 0,
    ensures
        r@ == strip_prefixes(s@, prefix@),
{
    let cs = chars_of(s);
    let n = cs.len();
    let p = prefix.unicode_len();
    let mut rest = String::from_str(s);
    let mut start: usize = 0;
    while has_prefix(rest.as_str(), prefix)
        invariant
            n == cs@.len(),
            p == prefix@.len() > 0,
            cs@ == s@,
            start <= cs@.len(),
            rest@ == s@.subrange(start as int, s@.len() as int),
            strip_prefixes(s@, prefix@) == strip_prefixes(rest@, prefix@),
        decreases cs@.len() - start,
    {
        start = start + p;
        let next = string_of(cs.as_slice(), start, cs.len());
        assert(next@ =~= rest@.subrange(p as int, rest@.len() as int));
        rest = next;
    }
    rest
}

/// The strings of a challenge parameter that holds a JSON array of strings,
/// or none when it is missing or holds anything else.
pub open spec fn json_list(value: Option<String>) -> Seq<Seq<char>> {
    match value {
        Some(v) => match json_strings(v@) {
            Some(items) => items,
            None => Seq::empty(),
        },
        None => Seq::empty(),
    }
}

fn parse_json_array(value: Option<&String>) -> (r: Vec<String>)
    ensures
        strings_view(r@) == json_list(
            match value {
                Some(v) => Some(*v),
                None => None,
            },
        ),
{
    match value {
        Some(raw) => match parse_json_strings(raw.as_str()) {
            Some(items) => items,
            None => {
                let empty: Vec<String> = Vec::new();
                assert(strings_view(empty@) =~= Seq::empty());
                empty
            },
        },
        None => {
            let empty: Vec<String> = Vec::new();
            assert(strings_view(empty@) =~= Seq::empty());
            empty
        },
    }
}

fn parameter(parameters: &Vec<(String, String)>, key: &str) -> (r: Option<String>)
    ensures
        r == find(parameters@, key@),
{
    match position(parameters, key) {
        Some(i) => Some(parameters[i].1.clone()),
        None => None,
    }
}

/// The challenge a sign-in step left pending, as it is kept until answered.
/// Cognito sends required attributes as `userAttributes.<name>` but wants them
/// answered by plain name.
pub open spec fn challenge_is(
    c: StoredChallenge,
    name: Seq<char>,
    session: Seq<char>,
    parameters: Seq<(String, String)>,
    fallback_username: Seq<char>,
) -> bool {
    &&& c.name@ == name
    &&& c.session@ == session
    &&& c.username@ == resolved_spec(parameters, fallback_username)
    &&& strings_view(c.required_attributes@) == json_list(find(parameters, "requiredAttributes"@)).map_values(
        |item: Seq<char>| strip_prefixes(item, "userAttributes."@),
    )
    &&& strings_view(c.mfa_options@) == json_list(find(parameters, "MFAS_CAN_CHOOSE"@))
    &&& c.destination == find(parameters, "CODE_DELIVERY_DESTINATION"@)
    &&& c.credential_request_options == find(parameters, "CREDENTIAL_REQUEST_OPTIONS"@)
}

/// What a sign-in step that did not sign in leaves pending: the challenge
/// Cognito named with the session it gave, or the reason there is none.
pub fn pending_challenge(
    name: Option<&str>,
    session: Option<&str>,
    parameters: &Vec<(String, String)>,
    fallback_username: &str,
) -> (r: Result<StoredChallenge, ApiError>)
    ensures
        match (name, session) {
            (Some(n), Some(s)) => if supported(n@) {
                r matches Ok(c) && challenge_is(c, n@, s@, parameters@, fallback_username@)
            } else {
                r matches Err(e) && says(
                    e,
                    BAD_REQUEST,
                    entry_with("error_unsupported_challenge"@, "name"@, n@),
                )
            },
            _ => r matches Err(e) && says(e, BAD_REQUEST, entry("error_login_failed"@)),
        },
{
    let (name, session) = match (name, session) {
        (Some(n), Some(s)) => (n, s),
        _ => return Err(ApiError::rejected("error_login_failed")),
    };
    if !is_supported(name) {
        return Err(ApiError::rejected_with("error_unsupported_challenge", "name", name));
    }
    let raw = parameter(parameters, "requiredAttributes");
    let listed = parse_json_array(raw.as_ref());
    let mut required_attributes: Vec<String> = Vec::new();
    let mut i: usize = 0;
    proof {
        reveal_strlit("userAttributes.");
    }
    while i < listed.len()
        invariant
            i <= listed@.len(),
            "userAttributes."@.len() > 0,
            required_attributes@.len() == i,
            forall|j: int|
                0 <= j < i ==> #[trigger] required_attributes@[j]@ == strip_prefixes(
                    listed@[j]@,
                    "userAttributes."@,
                ),
        decreases listed@.len() - i,
    {
        let item = strip_prefixes_of(listed[i].as_str(), "userAttributes.");
        required_attributes.push(item);
        i = i + 1;
    }
    assert(strings_view(required_attributes@) =~= strings_view(listed@).map_values(
        |item: Seq<char>| strip_prefixes(item, "userAttributes."@),
    ));
    let mfa = parameter(parameters, "MFAS_CAN_CHOOSE");
    let mfa_options = parse_json_array(mfa.as_ref());
    Ok(StoredChallenge {
        username: resolved_username(parameters, fallback_username),
        required_attributes,
        mfa_options,
        destination: parameter(parameters, "CODE_DELIVERY_DESTINATION"),
        credential_request_options: parameter(parameters, "CREDENTIAL_REQUEST_OPTIONS"),
        name: String::from_str(name),
        session: String::from_str(session),
    })
}

/// The map a list of entries amounts to when inserted in order: a later entry
/// for a key replaces an earlier one.
pub open spec fn to_map(entries: Seq<(String, String)>) -> Map<Seq<char>, Seq<char>>
    decreases entries.len(),
{
    if entries.len() == 0 {
        Map::empty()
    } else {
        to_map(entries.drop_last()).insert(entries.last().0@, entries.last().1@)
    }
}

proof fn lemma_to_map_push(entries: Seq<(String, String)>, e: (String, String))
    ensures
        to_map(entries.push(e)) == to_map(entries).insert(e.0@, e.1@),
{
    assert(entries.push(e).drop_last() =~= entries);
}

pub open spec fn text_of(o: Option<String>) -> Seq<char> {
    match o {
        Some(s) => s@,
        None => Seq::empty(),
    }
}

/// The required attributes among the first `k` that the answer gives a value
/// for, added to `m` as `userAttributes.<name>`, trimmed; blank ones are left
/// out.
pub open spec fn with_attributes(
    m: Map<Seq<char>, Seq<char>>,
    required: Seq<String>,
    given: Seq<(String, String)>,
    k: int,
) -> Map<Seq<char>, Seq<char>>
    decreases k,
{
    if k <= 0 {
        m
    } else {
        let before = with_attributes(m, required, given, k - 1);
        match find(given, required[k - 1]@) {
            Some(v) if trim(v@).len() > 0 => before.insert(
                "userAttributes."@ + required[k - 1]@,
                trim(v@),
            ),
            _ => before,
        }
    }
}

/// The challenge responses an answer amounts to, or why it is refused: the
/// username (and SECRET_HASH for an app client with a secret) always, then
/// what the named challenge asks for.
pub open spec fn responses_spec(config: Config, challenge: StoredChallenge, body: ChallengeRequest) -> Result<
    Map<Seq<char>, Seq<char>>,
    TextView,
> {
    let user = Map::<Seq<char>, Seq<char>>::empty().insert("USERNAME"@, challenge.username@);
    let base = match secret_hash_spec(config, challenge.username@) {
        Some(h) => user.insert("SECRET_HASH"@, h),
        None => user,
    };
    let code = trim(text_of(body.code));
    let name = challenge.name@;
    if name == "NEW_PASSWORD_REQUIRED"@ {
        let password = text_of(body.new_password);
        if password.len() == 0 {
            Err(entry("error_password_required"@))
        } else if !(body.confirm_password matches Some(c) && c@ == password) {
            Err(entry("error_password_mismatch"@))
        } else {
            Ok(
                with_attributes(
                    base.insert("NEW_PASSWORD"@, password),
                    challenge.required_attributes@,
                    body.user_attributes@,
                    challenge.required_attributes@.len() as int,
                ),
            )
        }
    } else if name == "SMS_MFA"@ {
        Ok(base.insert("SMS_MFA_CODE"@, code))
    } else if name == "EMAIL_OTP"@ {
        Ok(base.insert("EMAIL_OTP_CODE"@, code))
    } else if name == "SOFTWARE_TOKEN_MFA"@ {
        Ok(base.insert("SOFTWARE_TOKEN_MFA_CODE"@, code))
    } else if name == "WEB_AUTHN"@ {
        let credential = trim(text_of(body.credential));
        if credential.len() == 0 {
            Err(entry("error_passkey_required"@))
        } else {
            Ok(base.insert("CREDENTIAL"@, credential))
        }
    } else if name == "SELECT_MFA_TYPE"@ {
        Ok(base.insert("ANSWER"@, trim(text_of(body.mfa_type))))
    } else {
        Err(entry_with("error_unsupported_challenge"@, "name"@, name))
    }
}

proof fn lemma_challenge_names_differ()
    ensures
        "SELECT_MFA_TYPE"@ != "NEW_PASSWORD_REQUIRED"@,
        "SELECT_MFA_TYPE"@ != "SMS_MFA"@,
        "SELECT_MFA_TYPE"@ != "EMAIL_OTP"@,
        "SELECT_MFA_TYPE"@ != "SOFTWARE_TOKEN_MFA"@,
        "SELECT_MFA_TYPE"@ != "WEB_AUTHN"@,
        "SMS_MFA"@ != "NEW_PASSWORD_REQUIRED"@,
        "EMAIL_OTP"@ != "NEW_PASSWORD_REQUIRED"@,
        "EMAIL_OTP"@ != "SMS_MFA"@,
        "SOFTWARE_TOKEN_MFA"@ != "NEW_PASSWORD_REQUIRED"@,
        "SOFTWARE_TOKEN_MFA"@ != "SMS_MFA"@,
        "SOFTWARE_TOKEN_MFA"@ != "EMAIL_OTP"@,
        "ANSWER"@ != "USERNAME"@,
        "SMS_MFA_CODE"@ != "USERNAME"@,
        "EMAIL_OTP_CODE"@ != "USERNAME"@,
        "SOFTWARE_TOKEN_MFA_CODE"@ != "USERNAME"@,
        "SECRET_HASH"@ != "USERNAME"@,
{
    reveal_strlit("SELECT_MFA_TYPE");
    reveal_strlit("NEW_PASSWORD_REQUIRED");
    reveal_strlit("SMS_MFA");
    reveal_strlit("EMAIL_OTP");
    reveal_strlit("SOFTWARE_TOKEN_MFA");
    reveal_strlit("WEB_AUTHN");
    reveal_strlit("ANSWER");
    reveal_strlit("USERNAME");
    reveal_strlit("SMS_MFA_CODE");
    reveal_strlit("EMAIL_OTP_CODE");
    reveal_strlit("SOFTWARE_TOKEN_MFA_CODE");
    reveal_strlit("SECRET_HASH");
    assert("SELECT_MFA_TYPE"@.len() != "NEW_PASSWORD_REQUIRED"@.len());
    assert("SELECT_MFA_TYPE"@[1] != "SMS_MFA"@[1]);
    assert("SELECT_MFA_TYPE"@.len() != "EMAIL_OTP"@.len());
    assert("SELECT_MFA_TYPE"@.len() != "SOFTWARE_TOKEN_MFA"@.len());
    assert("SELECT_MFA_TYPE"@.len() != "WEB_AUTHN"@.len());
    assert("SMS_MFA"@.len() != "NEW_PASSWORD_REQUIRED"@.len());
    assert("EMAIL_OTP"@.len() != "NEW_PASSWORD_REQUIRED"@.len());
    assert("EMAIL_OTP"@.len() != "SMS_MFA"@.len());
    assert("SOFTWARE_TOKEN_MFA"@.len() != "NEW_PASSWORD_REQUIRED"@.len());
    assert("SOFTWARE_TOKEN_MFA"@.len() != "SMS_MFA"@.len());
    assert("SOFTWARE_TOKEN_MFA"@.len() != "EMAIL_OTP"@.len());
    assert("ANSWER"@.len() != "USERNAME"@.len());
    assert("SMS_MFA_CODE"@.len() != "USERNAME"@.len());
    assert("EMAIL_OTP_CODE"@.len() != "USERNAME"@.len());
    assert("SOFTWARE_TOKEN_MFA_CODE"@.len() != "USERNAME"@.len());
    assert("SECRET_HASH"@.len() != "USERNAME"@.len());
}

/// Choosing a second factor answers with the factor chosen: a
/// `SELECT_MFA_TYPE` challenge is always answered, for the challenge's user,
/// with the chosen type, trimmed, as its `ANSWER`.
pub proof fn law_mfa_choice_answers_the_chosen_type(
    config: Config,
    challenge: StoredChallenge,
    body: ChallengeRequest,
)
    requires
        challenge.name@ == "SELECT_MFA_TYPE"@,
    ensures
        responses_spec(config, challenge, body) matches Ok(m) && m.contains_key("ANSWER"@)
            && m["ANSWER"@] == trim(text_of(body.mfa_type)) && m.contains_key("USERNAME"@)
            && m["USERNAME"@] == challenge.username@,
{
    lemma_challenge_names_differ();
}

/// What the MFA choice sends depends on the chosen type alone: two requests
/// that choose the same type give the same answer, whatever code, password or
/// credential they carry besides.
pub proof fn law_mfa_choice_ignores_the_rest(
    config: Config,
    challenge: StoredChallenge,
    a: ChallengeRequest,
    b: ChallengeRequest,
)
    requires
        challenge.name@ == "SELECT_MFA_TYPE"@,
        text_of(a.mfa_type) == text_of(b.mfa_type),
    ensures
        responses_spec(config, challenge, a) == responses_spec(config, challenge, b),
{
    lemma_challenge_names_differ();
}

/// A code challenge is answered with the code typed, trimmed, under the key
/// that challenge asks for, for the challenge's user.
pub proof fn law_code_challenges_answer_the_code(
    config: Config,
    challenge: StoredChallenge,
    body: ChallengeRequest,
)
    requires
        challenge.name@ == "SMS_MFA"@ || challenge.name@ == "EMAIL_OTP"@ || challenge.name@
            == "SOFTWARE_TOKEN_MFA"@,
    ensures
        responses_spec(config, challenge, body) matches Ok(m) && m.contains_key("USERNAME"@)
            && m["USERNAME"@] == challenge.username@ && ({
            let key = if challenge.name@ == "SMS_MFA"@ {
                "SMS_MFA_CODE"@
            } else if challenge.name@ == "EMAIL_OTP"@ {
                "EMAIL_OTP_CODE"@
            } else {
                "SOFTWARE_TOKEN_MFA_CODE"@
            };
            m.contains_key(key) && m[key] == trim(text_of(body.code))
        }),
{
    lemma_challenge_names_differ();
}

proof fn lemma_with_attributes_keeps(
    m: Map<Seq<char>, Seq<char>>,
    required: Seq<String>,
    given: Seq<(String, String)>,
    k: int,
    key: Seq<char>,
)
    requires
        key.len() > 0,
        key[0] != 'u',
    ensures
        with_attributes(m, required, given, k).contains_key(key) == m.contains_key(key),
        m.contains_key(key) ==> with_attributes(m, required, given, k)[key] == m[key],
    decreases k,
{
    if k > 0 {
        lemma_with_attributes_keeps(m, required, given, k - 1, key);
        reveal_strlit("userAttributes.");
        let added = "userAttributes."@ + required[k - 1]@;
        assert(added[0] == 'u');
    }
}

/// A new password is answered as typed: refused when it is empty, refused
/// when the confirmation differs, and otherwise sent as `NEW_PASSWORD` for
/// the challenge's user.
pub proof fn law_new_password_is_sent_as_typed(
    config: Config,
    challenge: StoredChallenge,
    body: ChallengeRequest,
)
    requires
        challenge.name@ == "NEW_PASSWORD_REQUIRED"@,
    ensures
        text_of(body.new_password).len() == 0 ==> responses_spec(config, challenge, body) == Err::<
            Map<Seq<char>, Seq<char>>,
            TextView,
        >(entry("error_password_required"@)),
        text_of(body.new_password).len() > 0 && !(body.confirm_password matches Some(c) && c@
            == text_of(body.new_password)) ==> responses_spec(config, challenge, body) == Err::<
            Map<Seq<char>, Seq<char>>,
            TextView,
        >(entry("error_password_mismatch"@)),
        text_of(body.new_password).len() > 0 && (body.confirm_password matches Some(c) && c@
            == text_of(body.new_password)) ==> (responses_spec(config, challenge, body) matches Ok(m)
            && m.contains_key("NEW_PASSWORD"@) && m["NEW_PASSWORD"@] == text_of(body.new_password)
            && m.contains_key("USERNAME"@) && m["USERNAME"@] == challenge.username@),
{
    reveal_strlit("NEW_PASSWORD");
    reveal_strlit("USERNAME");
    reveal_strlit("SECRET_HASH");
    let password = text_of(body.new_password);
    if password.len() > 0 && (body.confirm_password matches Some(c) && c@ == password) {
        let user = Map::<Seq<char>, Seq<char>>::empty().insert("USERNAME"@, challenge.username@);
        let base = match secret_hash_spec(config, challenge.username@) {
            Some(h) => user.insert("SECRET_HASH"@, h),
            None => user,
        };
        let m = base.insert("NEW_PASSWORD"@, password);
        assert("NEW_PASSWORD"@[0] != 'u' && "USERNAME"@[0] != 'u');
        assert("NEW_PASSWORD"@.len() != "USERNAME"@.len());
        assert("SECRET_HASH"@.len() != "USERNAME"@.len());
        let n = challenge.required_attributes@.len() as int;
        lemma_with_attributes_keeps(m, challenge.required_attributes@, body.user_attributes@, n, "NEW_PASSWORD"@);
        lemma_with_attributes_keeps(m, challenge.required_attributes@, body.user_attributes@, n, "USERNAME"@);
    }
}

/// A passkey answer is refused without a credential, and otherwise sends the
/// credential, trimmed, for the challenge's user.
pub proof fn law_passkey_answer_sends_the_credential(
    config: Config,
    challenge: StoredChallenge,
    body: ChallengeRequest,
)
    requires
        challenge.name@ == "WEB_AUTHN"@,
    ensures
        trim(text_of(body.credential)).len() == 0 ==> responses_spec(config, challenge, body) == Err::<
            Map<Seq<char>, Seq<char>>,
            TextView,
        >(entry("error_passkey_required"@)),
        trim(text_of(body.credential)).len() > 0 ==> (responses_spec(config, challenge, body) matches Ok(
            m,
        ) && m.contains_key("CREDENTIAL"@) && m["CREDENTIAL"@] == trim(text_of(body.credential))
            && m.contains_key("USERNAME"@) && m["USERNAME"@] == challenge.username@),
{
    reveal_strlit("WEB_AUTHN");
    reveal_strlit("NEW_PASSWORD_REQUIRED");
    reveal_strlit("SMS_MFA");
    reveal_strlit("EMAIL_OTP");
    reveal_strlit("SOFTWARE_TOKEN_MFA");
    reveal_strlit("CREDENTIAL");
    reveal_strlit("USERNAME");
    reveal_strlit("SECRET_HASH");
    assert("WEB_AUTHN"@.len() != "NEW_PASSWORD_REQUIRED"@.len());
    assert("WEB_AUTHN"@.len() != "SMS_MFA"@.len());
    assert("WEB_AUTHN"@[0] != "EMAIL_OTP"@[0]);
    assert("WEB_AUTHN"@.len() != "SOFTWARE_TOKEN_MFA"@.len());
    assert("CREDENTIAL"@.len() != "USERNAME"@.len());
    assert("SECRET_HASH"@.len() != "USERNAME"@.len());
}

fn trimmed_or_empty(o: &Option<String>) -> (r: String)
    ensures
        r@ == trim(text_of(*o)),
{
    match o {
        Some(s) => trimmed(s.as_str()),
        None => {
            let r = String::new();
            assert(trim(Seq::<char>::empty()) =~= Seq::empty());
            r
        },
    }
}

fn insert_response(entries: &mut Vec<(String, String)>, key: &str, value: String)
    ensures
        final(entries)@ == old(entries)@.push((final(entries)@.last().0, value)),
        final(entries)@.last().0@ == key@,
        to_map(final(entries)@) == to_map(old(entries)@).insert(key@, value@),
{
    let ghost before = entries@;
    let k = String::from_str(key);
    proof {
        lemma_to_map_push(before, (k, value));
    }
    entries.push((k, value));
}

/// The challenge responses that answer `challenge` with `body`, in the order
/// they are inserted (a later one for a key replaces an earlier one), or why
/// the answer is refused.
pub fn responses_for(config: &Config, challenge: &StoredChallenge, body: &ChallengeRequest) -> (r:
    Result<Vec<(String, String)>, ApiError>)
    ensures
        match r {
            Ok(entries) => responses_spec(*config, *challenge, *body) == Ok::<
                Map<Seq<char>, Seq<char>>,
                TextView,
            >(to_map(entries@)),
            Err(e) => e.status == BAD_REQUEST && responses_spec(*config, *challenge, *body) == Err::<
                Map<Seq<char>, Seq<char>>,
                TextView,
            >(e.text@),
        },
{
    let mut responses: Vec<(String, String)> = Vec::new();
    insert_response(&mut responses, "USERNAME", challenge.username.clone());
    match secret_hash(config, challenge.username.as_str()) {
        Some(hash) => insert_response(&mut responses, "SECRET_HASH", hash),
        None => {},
    }
    let ghost base = to_map(responses@);

    let code = trimmed_or_empty(&body.code);
    let name = challenge.name.as_str();
    if str_eq(name, "NEW_PASSWORD_REQUIRED") {
        let password = match &body.new_password {
            Some(p) => p.clone(),
            None => String::new(),
        };
        if password.as_str().unicode_len() == 0 {
            return Err(ApiError::rejected("error_password_required"));
        }
        let confirmed = match &body.confirm_password {
            Some(c) => str_eq(c.as_str(), password.as_str()),
            None => false,
        };
        if !confirmed {
            return Err(ApiError::rejected("error_password_mismatch"));
        }
        insert_response(&mut responses, "NEW_PASSWORD", password);
        let ghost with_password = to_map(responses@);
        let required = &challenge.required_attributes;
        let mut i: usize = 0;
        while i < required.len()
            invariant
                i <= required@.len(),
                to_map(responses@) == with_attributes(
                    with_password,
                    required@,
                    body.user_attributes@,
                    i as int,
                ),
            decreases required@.len() - i,
        {
            match position(&body.user_attributes, required[i].as_str()) {
                Some(j) => {
                    let value = trimmed(body.user_attributes[j].1.as_str());
                    if value.as_str().unicode_len() > 0 {
                        let mut key = String::from_str("userAttributes.");
                        append_str(&mut key, required[i].as_str());
                        let ghost before = responses@;
                        proof {
                            lemma_to_map_push(before, (key, value));
                        }
                        responses.push((key, value));
                    }
                },
                None => {},
            }
            i = i + 1;
        }
    } else if str_eq(name, "SMS_MFA") {
        insert_response(&mut responses, "SMS_MFA_CODE", code);
    } else if str_eq(name, "EMAIL_OTP") {
        insert_response(&mut responses, "EMAIL_OTP_CODE", code);
    } else if str_eq(name, "SOFTWARE_TOKEN_MFA") {
        insert_response(&mut responses, "SOFTWARE_TOKEN_MFA_CODE", code);
    } else if str_eq(name, WEB_AUTHN) {
        let credential = trimmed_or_empty(&body.credential);
        if credential.as_str().unicode_len() == 0 {
            return Err(ApiError::rejected("error_passkey_required"));
        }
        insert_response(&mut responses, "CREDENTIAL", credential);
    } else if str_eq(name, "SELECT_MFA_TYPE") {
        let answer = trimmed_or_empty(&body.mfa_type);
        insert_response(&mut responses, "ANSWER", answer);
    } else {
        return Err(ApiError::rejected_with("error_unsupported_challenge", "name", name));
    }
    Ok(responses)
}

/// The auth parameters every sign-in starts with: the user, and the
/// SECRET_HASH for an app client that has a secret.
pub fn sign_in_parameters(config: &Config, username: &str) -> (r: Vec<(String, String)>)
    ensures
        match secret_hash_spec(*config, username@) {
            Some(h) => r@.len() == 2 && r@[1].0@ == "SECRET_HASH"@ && r@[1].1@ == h,
            None => r@.len() == 1,
        },
        r@[0].0@ == "USERNAME"@ && r@[0].1@ == username@,
{
    let mut r: Vec<(String, String)> = Vec::new();
    r.push((String::from_str("USERNAME"), String::from_str(username)));
    match secret_hash(config, username) {
        Some(h) => r.push((String::from_str("SECRET_HASH"), h)),
        None => {},
    }
    r
}

} // verus!
