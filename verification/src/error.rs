//! Errors phrased for the caller, and how a Cognito error code is answered.
//!
//! The wording itself lives in the message catalogs; an error carries the
//! catalog key and its substitutions, and is rendered in the caller's
//! language when the answer is written.

use vstd::prelude::*;

use crate::text::str_eq;

verus! {

pub const BAD_REQUEST: u16 = 400;
pub const UNAUTHORIZED: u16 = 401;
pub const FORBIDDEN: u16 = 403;
pub const NOT_FOUND: u16 = 404;
pub const TOO_MANY_REQUESTS: u16 = 429;
pub const INTERNAL_SERVER_ERROR: u16 = 500;
pub const BAD_GATEWAY: u16 = 502;

/// A 4xx status: something the caller's input caused.
pub open spec fn client_error(status: u16) -> bool {
    400 <= status < 500
}

pub fn is_client_error(status: u16) -> (r: bool)
    ensures
        r == client_error(status),
{
    400 <= status && status < 500
}

/// Wording for the caller.
pub enum Text {
    /// A catalog entry and the values it substitutes, by name.
    Catalog { key: String, args: Vec<(String, String)> },
    /// Wording that came with an upstream failure, shown as it is.
    Verbatim(String),
}

pub ghost enum TextView {
    Catalog { key: Seq<char>, args: Seq<(Seq<char>, Seq<char>)> },
    Verbatim(Seq<char>),
}

pub open spec fn pairs_view(args: Seq<(String, String)>) -> Seq<(Seq<char>, Seq<char>)> {
    args.map_values(|p: (String, String)| (p.0@, p.1@))
}

impl View for Text {
    type V = TextView;

    open spec fn view(&self) -> TextView {
        match self {
            Text::Catalog { key, args } => TextView::Catalog { key: key@, args: pairs_view(args@) },
            Text::Verbatim(s) => TextView::Verbatim(s@),
        }
    }
}

/// The catalog entry `key`, substituting nothing.
pub open spec fn entry(key: Seq<char>) -> TextView {
    TextView::Catalog { key, args: Seq::empty() }
}

/// The catalog entry `key`, substituting `value` for `name`.
pub open spec fn entry_with(key: Seq<char>, name: Seq<char>, value: Seq<char>) -> TextView {
    TextView::Catalog { key, args: seq![(name, value)] }
}

/// The catalog entry `key`, substituting two named values.
pub open spec fn entry_with2(
    key: Seq<char>,
    name1: Seq<char>,
    value1: Seq<char>,
    name2: Seq<char>,
    value2: Seq<char>,
) -> TextView {
    TextView::Catalog { key, args: seq![(name1, value1), (name2, value2)] }
}

impl Text {
    pub fn key(key: &str) -> (r: Text)
        ensures
            r@ == entry(key@),
    {
        let r = Text::Catalog { key: String::from_str(key), args: Vec::new() };
        assert(pairs_view(Seq::<(String, String)>::empty()) =~= Seq::empty());
        r
    }

    pub fn key_with(key: &str, name: &str, value: &str) -> (r: Text)
        ensures
            r@ == entry_with(key@, name@, value@),
    {
        let mut args: Vec<(String, String)> = Vec::new();
        args.push((String::from_str(name), String::from_str(value)));
        let r = Text::Catalog { key: String::from_str(key), args };
        assert(pairs_view(r->args@) =~= seq![(name@, value@)]);
        r
    }
}

impl Text {
    pub fn key_with2(key: &str, name1: &str, value1: &str, name2: &str, value2: &str) -> (r: Text)
        ensures
            r@ == entry_with2(key@, name1@, value1@, name2@, value2@),
    {
        let mut args: Vec<(String, String)> = Vec::new();
        args.push((String::from_str(name1), String::from_str(value1)));
        args.push((String::from_str(name2), String::from_str(value2)));
        let r = Text::Catalog { key: String::from_str(key), args };
        assert(pairs_view(r->args@) =~= seq![(name1@, value1@), (name2@, value2@)]);
        r
    }
}

/// An error already decided: the status to answer with and what to tell the caller.
pub struct ApiError {
    pub status: u16,
    pub text: Text,
}

pub type ApiResult<T> = Result<T, ApiError>;

/// `e` answers `status` with `text`.
pub open spec fn says(e: ApiError, status: u16, text: TextView) -> bool {
    e.status == status && e.text@ == text
}

impl ApiError {
    pub fn new(status: u16, text: Text) -> (r: ApiError)
        ensures
            r.status == status,
            r.text == text,
    {
        ApiError { status, text }
    }

    pub fn bad_request(text: Text) -> (r: ApiError)
        ensures
            r.status == BAD_REQUEST,
            r.text == text,
    {
        Self::new(BAD_REQUEST, text)
    }

    pub fn not_found(text: Text) -> (r: ApiError)
        ensures
            r.status == NOT_FOUND,
            r.text == text,
    {
        Self::new(NOT_FOUND, text)
    }

    pub fn unauthorized() -> (r: ApiError)
        ensures
            says(r, UNAUTHORIZED, entry("error_unauthorized"@)),
    {
        Self::new(UNAUTHORIZED, Text::key("error_unauthorized"))
    }

    pub fn internal() -> (r: ApiError)
        ensures
            says(r, INTERNAL_SERVER_ERROR, entry("error_unexpected"@)),
    {
        Self::new(INTERNAL_SERVER_ERROR, Text::key("error_unexpected"))
    }

    pub fn forbidden() -> (r: ApiError)
        ensures
            says(r, FORBIDDEN, entry("error_forbidden"@)),
    {
        Self::new(FORBIDDEN, Text::key("error_forbidden"))
    }

    /// A 400 naming the catalog entry `key`.
    pub fn rejected(key: &str) -> (r: ApiError)
        ensures
            says(r, BAD_REQUEST, entry(key@)),
    {
        Self::bad_request(Text::key(key))
    }

    /// A 400 naming the catalog entry `key`, with one substitution.
    pub fn rejected_with(key: &str, name: &str, value: &str) -> (r: ApiError)
        ensures
            says(r, BAD_REQUEST, entry_with(key@, name@, value@)),
    {
        Self::bad_request(Text::key_with(key, name, value))
    }
}

impl ApiError {
    /// A 400 naming the catalog entry `key`, with two substitutions.
    pub fn rejected_with2(key: &str, name1: &str, value1: &str, name2: &str, value2: &str) -> (r:
        ApiError)
        ensures
            says(r, BAD_REQUEST, entry_with2(key@, name1@, value1@, name2@, value2@)),
    {
        Self::bad_request(Text::key_with2(key, name1, value1, name2, value2))
    }
}

/// How each Cognito error code we have wording for is answered: the catalog
/// key and the status, from one arm, so a code cannot have wording in one
/// place and a status in another.
pub open spec fn known_spec(code: Seq<char>) -> Option<(Seq<char>, u16)> {
    if code == "NotAuthorizedException"@ {
        Some(("error_not_authorized"@, UNAUTHORIZED))
    } else if code == "UserNotConfirmedException"@ {
        Some(("error_user_not_confirmed"@, UNAUTHORIZED))
    } else if code == "PasswordResetRequiredException"@ {
        Some(("error_password_reset_required"@, UNAUTHORIZED))
    } else if code == "UserNotFoundException"@ {
        Some(("error_user_not_found"@, NOT_FOUND))
    } else if code == "AccessDeniedException"@ {
        Some(("error_access_denied"@, FORBIDDEN))
    } else if code == "TooManyRequestsException"@ {
        Some(("error_too_many_requests"@, TOO_MANY_REQUESTS))
    } else if code == "LimitExceededException"@ {
        Some(("error_limit_exceeded"@, TOO_MANY_REQUESTS))
    } else if code == "TooManyFailedAttemptsException"@ {
        Some(("error_too_many_failed_attempts"@, TOO_MANY_REQUESTS))
    } else if code == "CodeMismatchException"@ {
        Some(("error_code_mismatch"@, BAD_REQUEST))
    } else if code == "ExpiredCodeException"@ {
        Some(("error_expired_code"@, BAD_REQUEST))
    } else if code == "InvalidPasswordException"@ {
        Some(("error_invalid_password"@, BAD_REQUEST))
    } else if code == "InvalidParameterException"@ {
        Some(("error_invalid_parameter"@, BAD_REQUEST))
    } else if code == "UsernameExistsException"@ {
        Some(("error_username_exists"@, BAD_REQUEST))
    } else if code == "GroupExistsException"@ {
        Some(("error_group_exists"@, BAD_REQUEST))
    } else if code == "EnableSoftwareTokenMFAException"@ {
        // A code that did not match the enrolled authenticator app.
        Some(("error_code_mismatch"@, BAD_REQUEST))
    } else if code == "SoftwareTokenMFANotFoundException"@ {
        Some(("error_totp_not_found"@, BAD_REQUEST))
    } else if code == "AliasExistsException"@ {
        Some(("error_alias_exists"@, BAD_REQUEST))
    } else if code == "UnrecognizedClientException"@ || code == "InvalidSignatureException"@ {
        // Our own credentials or app client are wrong: their own wording, but
        // an upstream failure the caller can do nothing about.
        Some(("error_bad_credentials"@, BAD_GATEWAY))
    } else if code == "ResourceNotFoundException"@ {
        Some(("error_pool_not_found"@, BAD_GATEWAY))
    } else {
        None
    }
}

/// The catalog key and status for a Cognito error code, or `None` when we
/// have no wording of our own for it.
pub fn known(code: &str) -> (r: Option<(&'static str, u16)>)
    ensures
        match r {
            Some((key, status)) => known_spec(code@) == Some((key@, status)),
            None => known_spec(code@) is None,
        },
{
    if str_eq(code, "NotAuthorizedException") {
        Some(("error_not_authorized", UNAUTHORIZED))
    } else if str_eq(code, "UserNotConfirmedException") {
        Some(("error_user_not_confirmed", UNAUTHORIZED))
    } else if str_eq(code, "PasswordResetRequiredException") {
        Some(("error_password_reset_required", UNAUTHORIZED))
    } else if str_eq(code, "UserNotFoundException") {
        Some(("error_user_not_found", NOT_FOUND))
    } else if str_eq(code, "AccessDeniedException") {
        Some(("error_access_denied", FORBIDDEN))
    } else if str_eq(code, "TooManyRequestsException") {
        Some(("error_too_many_requests", TOO_MANY_REQUESTS))
    } else if str_eq(code, "LimitExceededException") {
        Some(("error_limit_exceeded", TOO_MANY_REQUESTS))
    } else if str_eq(code, "TooManyFailedAttemptsException") {
        Some(("error_too_many_failed_attempts", TOO_MANY_REQUESTS))
    } else if str_eq(code, "CodeMismatchException") {
        Some(("error_code_mismatch", BAD_REQUEST))
    } else if str_eq(code, "ExpiredCodeException") {
        Some(("error_expired_code", BAD_REQUEST))
    } else if str_eq(code, "InvalidPasswordException") {
        Some(("error_invalid_password", BAD_REQUEST))
    } else if str_eq(code, "InvalidParameterException") {
        Some(("error_invalid_parameter", BAD_REQUEST))
    } else if str_eq(code, "UsernameExistsException") {
        Some(("error_username_exists", BAD_REQUEST))
    } else if str_eq(code, "GroupExistsException") {
        Some(("error_group_exists", BAD_REQUEST))
    } else if str_eq(code, "EnableSoftwareTokenMFAException") {
        Some(("error_code_mismatch", BAD_REQUEST))
    } else if str_eq(code, "SoftwareTokenMFANotFoundException") {
        Some(("error_totp_not_found", BAD_REQUEST))
    } else if str_eq(code, "AliasExistsException") {
        Some(("error_alias_exists", BAD_REQUEST))
    } else if str_eq(code, "UnrecognizedClientException") || str_eq(
        code,
        "InvalidSignatureException",
    ) {
        Some(("error_bad_credentials", BAD_GATEWAY))
    } else if str_eq(code, "ResourceNotFoundException") {
        Some(("error_pool_not_found", BAD_GATEWAY))
    } else {
        None
    }
}

/// How a failed Cognito call is answered, given the error code and message it
/// carried: a code we know gets our wording and status; anything else is not
/// the caller's to fix and answers 502 with Cognito's own message, or with
/// our generic wording when it brought none.
pub open spec fn cognito_answer(code: Seq<char>, message: Option<Seq<char>>) -> (u16, TextView) {
    match known_spec(code) {
        Some((key, status)) => (status, entry(key)),
        None => match message {
            Some(m) => (BAD_GATEWAY, TextView::Verbatim(m)),
            None => (BAD_GATEWAY, entry("error_unexpected"@)),
        },
    }
}

/// The input errors, which the caller can correct and retry.
pub open spec fn input_error(code: Seq<char>) -> bool {
    ||| code == "CodeMismatchException"@
    ||| code == "ExpiredCodeException"@
    ||| code == "InvalidPasswordException"@
    ||| code == "InvalidParameterException"@
    ||| code == "UsernameExistsException"@
    ||| code == "GroupExistsException"@
    ||| code == "EnableSoftwareTokenMFAException"@
    ||| code == "SoftwareTokenMFANotFoundException"@
    ||| code == "AliasExistsException"@
}

/// The errors the caller's input or standing caused: the input errors, and
/// those of credentials, confirmation, a missing user, missing rights and
/// too many attempts.
pub open spec fn caller_error(code: Seq<char>) -> bool {
    ||| input_error(code)
    ||| code == "NotAuthorizedException"@
    ||| code == "UserNotConfirmedException"@
    ||| code == "PasswordResetRequiredException"@
    ||| code == "UserNotFoundException"@
    ||| code == "AccessDeniedException"@
    ||| code == "TooManyRequestsException"@
    ||| code == "LimitExceededException"@
    ||| code == "TooManyFailedAttemptsException"@
}

/// Anything the caller's input caused is a 4xx with our own wording, so the
/// frontend can tell it apart from an outage: never a 502, never Cognito's
/// message, and the same answer whatever message came with it.
pub proof fn law_caller_errors_are_4xx(code: Seq<char>, message: Option<Seq<char>>, other: Option<Seq<char>>)
    requires
        caller_error(code),
    ensures
        400 <= cognito_answer(code, message).0 < 500,
        cognito_answer(code, message).1 matches TextView::Catalog { key, args } && args.len() == 0,
        cognito_answer(code, message) == cognito_answer(code, other),
{
    reveal_strlit("NotAuthorizedException");
    reveal_strlit("UserNotConfirmedException");
    reveal_strlit("PasswordResetRequiredException");
    reveal_strlit("UserNotFoundException");
    reveal_strlit("AccessDeniedException");
    reveal_strlit("TooManyRequestsException");
    reveal_strlit("LimitExceededException");
    reveal_strlit("TooManyFailedAttemptsException");
    reveal_strlit("CodeMismatchException");
    reveal_strlit("ExpiredCodeException");
    reveal_strlit("InvalidPasswordException");
    reveal_strlit("InvalidParameterException");
    reveal_strlit("UsernameExistsException");
    reveal_strlit("GroupExistsException");
    reveal_strlit("EnableSoftwareTokenMFAException");
    reveal_strlit("SoftwareTokenMFANotFoundException");
    reveal_strlit("AliasExistsException");
    reveal_strlit("UnrecognizedClientException");
    reveal_strlit("InvalidSignatureException");
    reveal_strlit("ResourceNotFoundException");
}

/// Each input-error code differs from every code the table lists before it.
proof fn lemma_input_codes_differ()
    ensures
        "CodeMismatchException"@ != "NotAuthorizedException"@,
        "CodeMismatchException"@ != "UserNotConfirmedException"@,
        "CodeMismatchException"@ != "PasswordResetRequiredException"@,
        "CodeMismatchException"@ != "UserNotFoundException"@,
        "CodeMismatchException"@ != "AccessDeniedException"@,
        "CodeMismatchException"@ != "TooManyRequestsException"@,
        "CodeMismatchException"@ != "LimitExceededException"@,
        "CodeMismatchException"@ != "TooManyFailedAttemptsException"@,
        "ExpiredCodeException"@ != "NotAuthorizedException"@,
        "ExpiredCodeException"@ != "UserNotConfirmedException"@,
        "ExpiredCodeException"@ != "PasswordResetRequiredException"@,
        "ExpiredCodeException"@ != "UserNotFoundException"@,
        "ExpiredCodeException"@ != "AccessDeniedException"@,
        "ExpiredCodeException"@ != "TooManyRequestsException"@,
        "ExpiredCodeException"@ != "LimitExceededException"@,
        "ExpiredCodeException"@ != "TooManyFailedAttemptsException"@,
        "ExpiredCodeException"@ != "CodeMismatchException"@,
        "InvalidPasswordException"@ != "NotAuthorizedException"@,
        "InvalidPasswordException"@ != "UserNotConfirmedException"@,
        "InvalidPasswordException"@ != "PasswordResetRequiredException"@,
        "InvalidPasswordException"@ != "UserNotFoundException"@,
        "InvalidPasswordException"@ != "AccessDeniedException"@,
        "InvalidPasswordException"@ != "TooManyRequestsException"@,
        "InvalidPasswordException"@ != "LimitExceededException"@,
        "InvalidPasswordException"@ != "TooManyFailedAttemptsException"@,
        "InvalidPasswordException"@ != "CodeMismatchException"@,
        "InvalidPasswordException"@ != "ExpiredCodeException"@,
        "InvalidParameterException"@ != "NotAuthorizedException"@,
        "InvalidParameterException"@ != "UserNotConfirmedException"@,
        "InvalidParameterException"@ != "PasswordResetRequiredException"@,
        "InvalidParameterException"@ != "UserNotFoundException"@,
        "InvalidParameterException"@ != "AccessDeniedException"@,
        "InvalidParameterException"@ != "TooManyRequestsException"@,
        "InvalidParameterException"@ != "LimitExceededException"@,
        "InvalidParameterException"@ != "TooManyFailedAttemptsException"@,
        "InvalidParameterException"@ != "CodeMismatchException"@,
        "InvalidParameterException"@ != "ExpiredCodeException"@,
        "InvalidParameterException"@ != "InvalidPasswordException"@,
        "UsernameExistsException"@ != "NotAuthorizedException"@,
        "UsernameExistsException"@ != "UserNotConfirmedException"@,
        "UsernameExistsException"@ != "PasswordResetRequiredException"@,
        "UsernameExistsException"@ != "UserNotFoundException"@,
        "UsernameExistsException"@ != "AccessDeniedException"@,
        "UsernameExistsException"@ != "TooManyRequestsException"@,
        "UsernameExistsException"@ != "LimitExceededException"@,
        "UsernameExistsException"@ != "TooManyFailedAttemptsException"@,
        "UsernameExistsException"@ != "CodeMismatchException"@,
        "UsernameExistsException"@ != "ExpiredCodeException"@,
        "UsernameExistsException"@ != "InvalidPasswordException"@,
        "UsernameExistsException"@ != "InvalidParameterException"@,
        "GroupExistsException"@ != "NotAuthorizedException"@,
        "GroupExistsException"@ != "UserNotConfirmedException"@,
        "GroupExistsException"@ != "PasswordResetRequiredException"@,
        "GroupExistsException"@ != "UserNotFoundException"@,
        "GroupExistsException"@ != "AccessDeniedException"@,
        "GroupExistsException"@ != "TooManyRequestsException"@,
        "GroupExistsException"@ != "LimitExceededException"@,
        "GroupExistsException"@ != "TooManyFailedAttemptsException"@,
        "GroupExistsException"@ != "CodeMismatchException"@,
        "GroupExistsException"@ != "ExpiredCodeException"@,
        "GroupExistsException"@ != "InvalidPasswordException"@,
        "GroupExistsException"@ != "InvalidParameterException"@,
        "GroupExistsException"@ != "UsernameExistsException"@,
        "EnableSoftwareTokenMFAException"@ != "NotAuthorizedException"@,
        "EnableSoftwareTokenMFAException"@ != "UserNotConfirmedException"@,
        "EnableSoftwareTokenMFAException"@ != "PasswordResetRequiredException"@,
        "EnableSoftwareTokenMFAException"@ != "UserNotFoundException"@,
        "EnableSoftwareTokenMFAException"@ != "AccessDeniedException"@,
        "EnableSoftwareTokenMFAException"@ != "TooManyRequestsException"@,
        "EnableSoftwareTokenMFAException"@ != "LimitExceededException"@,
        "EnableSoftwareTokenMFAException"@ != "TooManyFailedAttemptsException"@,
        "EnableSoftwareTokenMFAException"@ != "CodeMismatchException"@,
        "EnableSoftwareTokenMFAException"@ != "ExpiredCodeException"@,
        "EnableSoftwareTokenMFAException"@ != "InvalidPasswordException"@,
        "EnableSoftwareTokenMFAException"@ != "InvalidParameterException"@,
        "EnableSoftwareTokenMFAException"@ != "UsernameExistsException"@,
        "EnableSoftwareTokenMFAException"@ != "GroupExistsException"@,
        "SoftwareTokenMFANotFoundException"@ != "NotAuthorizedException"@,
        "SoftwareTokenMFANotFoundException"@ != "UserNotConfirmedException"@,
        "SoftwareTokenMFANotFoundException"@ != "PasswordResetRequiredException"@,
        "SoftwareTokenMFANotFoundException"@ != "UserNotFoundException"@,
        "SoftwareTokenMFANotFoundException"@ != "AccessDeniedException"@,
        "SoftwareTokenMFANotFoundException"@ != "TooManyRequestsException"@,
        "SoftwareTokenMFANotFoundException"@ != "LimitExceededException"@,
        "SoftwareTokenMFANotFoundException"@ != "TooManyFailedAttemptsException"@,
        "SoftwareTokenMFANotFoundException"@ != "CodeMismatchException"@,
        "SoftwareTokenMFANotFoundException"@ != "ExpiredCodeException"@,
        "SoftwareTokenMFANotFoundException"@ != "InvalidPasswordException"@,
        "SoftwareTokenMFANotFoundException"@ != "InvalidParameterException"@,
        "SoftwareTokenMFANotFoundException"@ != "UsernameExistsException"@,
        "SoftwareTokenMFANotFoundException"@ != "GroupExistsException"@,
        "SoftwareTokenMFANotFoundException"@ != "EnableSoftwareTokenMFAException"@,
        "AliasExistsException"@ != "NotAuthorizedException"@,
        "AliasExistsException"@ != "UserNotConfirmedException"@,
        "AliasExistsException"@ != "PasswordResetRequiredException"@,
        "AliasExistsException"@ != "UserNotFoundException"@,
        "AliasExistsException"@ != "AccessDeniedException"@,
        "AliasExistsException"@ != "TooManyRequestsException"@,
        "AliasExistsException"@ != "LimitExceededException"@,
        "AliasExistsException"@ != "TooManyFailedAttemptsException"@,
        "AliasExistsException"@ != "CodeMismatchException"@,
        "AliasExistsException"@ != "ExpiredCodeException"@,
        "AliasExistsException"@ != "InvalidPasswordException"@,
        "AliasExistsException"@ != "InvalidParameterException"@,
        "AliasExistsException"@ != "UsernameExistsException"@,
        "AliasExistsException"@ != "GroupExistsException"@,
        "AliasExistsException"@ != "EnableSoftwareTokenMFAException"@,
        "AliasExistsException"@ != "SoftwareTokenMFANotFoundException"@,
{
    reveal_strlit("NotAuthorizedException");
    reveal_strlit("UserNotConfirmedException");
    reveal_strlit("PasswordResetRequiredException");
    reveal_strlit("UserNotFoundException");
    reveal_strlit("AccessDeniedException");
    reveal_strlit("TooManyRequestsException");
    reveal_strlit("LimitExceededException");
    reveal_strlit("TooManyFailedAttemptsException");
    reveal_strlit("CodeMismatchException");
    reveal_strlit("ExpiredCodeException");
    reveal_strlit("InvalidPasswordException");
    reveal_strlit("InvalidParameterException");
    reveal_strlit("UsernameExistsException");
    reveal_strlit("GroupExistsException");
    reveal_strlit("EnableSoftwareTokenMFAException");
    reveal_strlit("SoftwareTokenMFANotFoundException");
    reveal_strlit("AliasExistsException");
    reveal_strlit("UnrecognizedClientException");
    reveal_strlit("InvalidSignatureException");
    reveal_strlit("ResourceNotFoundException");
    assert("CodeMismatchException"@.len() != "NotAuthorizedException"@.len());
    assert("CodeMismatchException"@.len() != "UserNotConfirmedException"@.len());
    assert("CodeMismatchException"@.len() != "PasswordResetRequiredException"@.len());
    assert("CodeMismatchException"@[0] != "UserNotFoundException"@[0]);
    assert("CodeMismatchException"@[0] != "AccessDeniedException"@[0]);
    assert("CodeMismatchException"@.len() != "TooManyRequestsException"@.len());
    assert("CodeMismatchException"@.len() != "LimitExceededException"@.len());
    assert("CodeMismatchException"@.len() != "TooManyFailedAttemptsException"@.len());
    assert("ExpiredCodeException"@.len() != "NotAuthorizedException"@.len());
    assert("ExpiredCodeException"@.len() != "UserNotConfirmedException"@.len());
    assert("ExpiredCodeException"@.len() != "PasswordResetRequiredException"@.len());
    assert("ExpiredCodeException"@.len() != "UserNotFoundException"@.len());
    assert("ExpiredCodeException"@.len() != "AccessDeniedException"@.len());
    assert("ExpiredCodeException"@.len() != "TooManyRequestsException"@.len());
    assert("ExpiredCodeException"@.len() != "LimitExceededException"@.len());
    assert("ExpiredCodeException"@.len() != "TooManyFailedAttemptsException"@.len());
    assert("ExpiredCodeException"@.len() != "CodeMismatchException"@.len());
    assert("InvalidPasswordException"@.len() != "NotAuthorizedException"@.len());
    assert("InvalidPasswordException"@.len() != "UserNotConfirmedException"@.len());
    assert("InvalidPasswordException"@.len() != "PasswordResetRequiredException"@.len());
    assert("InvalidPasswordException"@.len() != "UserNotFoundException"@.len());
    assert("InvalidPasswordException"@.len() != "AccessDeniedException"@.len());
    assert("InvalidPasswordException"@[0] != "TooManyRequestsException"@[0]);
    assert("InvalidPasswordException"@.len() != "LimitExceededException"@.len());
    assert("InvalidPasswordException"@.len() != "TooManyFailedAttemptsException"@.len());
    assert("InvalidPasswordException"@.len() != "CodeMismatchException"@.len());
    assert("InvalidPasswordException"@.len() != "ExpiredCodeException"@.len());
    assert("InvalidParameterException"@.len() != "NotAuthorizedException"@.len());
    assert("InvalidParameterException"@[0] != "UserNotConfirmedException"@[0]);
    assert("InvalidParameterException"@.len() != "PasswordResetRequiredException"@.len());
    assert("InvalidParameterException"@.len() != "UserNotFoundException"@.len());
    assert("InvalidParameterException"@.len() != "AccessDeniedException"@.len());
    assert("InvalidParameterException"@.len() != "TooManyRequestsException"@.len());
    assert("InvalidParameterException"@.len() != "LimitExceededException"@.len());
    assert("InvalidParameterException"@.len() != "TooManyFailedAttemptsException"@.len());
    assert("InvalidParameterException"@.len() != "CodeMismatchException"@.len());
    assert("InvalidParameterException"@.len() != "ExpiredCodeException"@.len());
    assert("InvalidParameterException"@.len() != "InvalidPasswordException"@.len());
    assert("UsernameExistsException"@.len() != "NotAuthorizedException"@.len());
    assert("UsernameExistsException"@.len() != "UserNotConfirmedException"@.len());
    assert("UsernameExistsException"@.len() != "PasswordResetRequiredException"@.len());
    assert("UsernameExistsException"@.len() != "UserNotFoundException"@.len());
    assert("UsernameExistsException"@.len() != "AccessDeniedException"@.len());
    assert("UsernameExistsException"@.len() != "TooManyRequestsException"@.len());
    assert("UsernameExistsException"@.len() != "LimitExceededException"@.len());
    assert("UsernameExistsException"@.len() != "TooManyFailedAttemptsException"@.len());
    assert("UsernameExistsException"@.len() != "CodeMismatchException"@.len());
    assert("UsernameExistsException"@.len() != "ExpiredCodeException"@.len());
    assert("UsernameExistsException"@.len() != "InvalidPasswordException"@.len());
    assert("UsernameExistsException"@.len() != "InvalidParameterException"@.len());
    assert("GroupExistsException"@.len() != "NotAuthorizedException"@.len());
    assert("GroupExistsException"@.len() != "UserNotConfirmedException"@.len());
    assert("GroupExistsException"@.len() != "PasswordResetRequiredException"@.len());
    assert("GroupExistsException"@.len() != "UserNotFoundException"@.len());
    assert("GroupExistsException"@.len() != "AccessDeniedException"@.len());
    assert("GroupExistsException"@.len() != "TooManyRequestsException"@.len());
    assert("GroupExistsException"@.len() != "LimitExceededException"@.len());
    assert("GroupExistsException"@.len() != "TooManyFailedAttemptsException"@.len());
    assert("GroupExistsException"@.len() != "CodeMismatchException"@.len());
    assert("GroupExistsException"@[0] != "ExpiredCodeException"@[0]);
    assert("GroupExistsException"@.len() != "InvalidPasswordException"@.len());
    assert("GroupExistsException"@.len() != "InvalidParameterException"@.len());
    assert("GroupExistsException"@.len() != "UsernameExistsException"@.len());
    assert("EnableSoftwareTokenMFAException"@.len() != "NotAuthorizedException"@.len());
    assert("EnableSoftwareTokenMFAException"@.len() != "UserNotConfirmedException"@.len());
    assert("EnableSoftwareTokenMFAException"@.len() != "PasswordResetRequiredException"@.len());
    assert("EnableSoftwareTokenMFAException"@.len() != "UserNotFoundException"@.len());
    assert("EnableSoftwareTokenMFAException"@.len() != "AccessDeniedException"@.len());
    assert("EnableSoftwareTokenMFAException"@.len() != "TooManyRequestsException"@.len());
    assert("EnableSoftwareTokenMFAException"@.len() != "LimitExceededException"@.len());
    assert("EnableSoftwareTokenMFAException"@.len() != "TooManyFailedAttemptsException"@.len());
    assert("EnableSoftwareTokenMFAException"@.len() != "CodeMismatchException"@.len());
    assert("EnableSoftwareTokenMFAException"@.len() != "ExpiredCodeException"@.len());
    assert("EnableSoftwareTokenMFAException"@.len() != "InvalidPasswordException"@.len());
    assert("EnableSoftwareTokenMFAException"@.len() != "InvalidParameterException"@.len());
    assert("EnableSoftwareTokenMFAException"@.len() != "UsernameExistsException"@.len());
    assert("EnableSoftwareTokenMFAException"@.len() != "GroupExistsException"@.len());
    assert("SoftwareTokenMFANotFoundException"@.len() != "NotAuthorizedException"@.len());
    assert("SoftwareTokenMFANotFoundException"@.len() != "UserNotConfirmedException"@.len());
    assert("SoftwareTokenMFANotFoundException"@.len() != "PasswordResetRequiredException"@.len());
    assert("SoftwareTokenMFANotFoundException"@.len() != "UserNotFoundException"@.len());
    assert("SoftwareTokenMFANotFoundException"@.len() != "AccessDeniedException"@.len());
    assert("SoftwareTokenMFANotFoundException"@.len() != "TooManyRequestsException"@.len());
    assert("SoftwareTokenMFANotFoundException"@.len() != "LimitExceededException"@.len());
    assert("SoftwareTokenMFANotFoundException"@.len() != "TooManyFailedAttemptsException"@.len());
    assert("SoftwareTokenMFANotFoundException"@.len() != "CodeMismatchException"@.len());
    assert("SoftwareTokenMFANotFoundException"@.len() != "ExpiredCodeException"@.len());
    assert("SoftwareTokenMFANotFoundException"@.len() != "InvalidPasswordException"@.len());
    assert("SoftwareTokenMFANotFoundException"@.len() != "InvalidParameterException"@.len());
    assert("SoftwareTokenMFANotFoundException"@.len() != "UsernameExistsException"@.len());
    assert("SoftwareTokenMFANotFoundException"@.len() != "GroupExistsException"@.len());
    assert("SoftwareTokenMFANotFoundException"@.len() != "EnableSoftwareTokenMFAException"@.len());
    assert("AliasExistsException"@.len() != "NotAuthorizedException"@.len());
    assert("AliasExistsException"@.len() != "UserNotConfirmedException"@.len());
    assert("AliasExistsException"@.len() != "PasswordResetRequiredException"@.len());
    assert("AliasExistsException"@.len() != "UserNotFoundException"@.len());
    assert("AliasExistsException"@.len() != "AccessDeniedException"@.len());
    assert("AliasExistsException"@.len() != "TooManyRequestsException"@.len());
    assert("AliasExistsException"@.len() != "LimitExceededException"@.len());
    assert("AliasExistsException"@.len() != "TooManyFailedAttemptsException"@.len());
    assert("AliasExistsException"@.len() != "CodeMismatchException"@.len());
    assert("AliasExistsException"@[0] != "ExpiredCodeException"@[0]);
    assert("AliasExistsException"@.len() != "InvalidPasswordException"@.len());
    assert("AliasExistsException"@.len() != "InvalidParameterException"@.len());
    assert("AliasExistsException"@.len() != "UsernameExistsException"@.len());
    assert("AliasExistsException"@[0] != "GroupExistsException"@[0]);
    assert("AliasExistsException"@.len() != "EnableSoftwareTokenMFAException"@.len());
    assert("AliasExistsException"@.len() != "SoftwareTokenMFANotFoundException"@.len());
}

/// An error in what the caller sent is a 400.
pub proof fn law_input_errors_are_400(code: Seq<char>, message: Option<Seq<char>>)
    requires
        input_error(code),
    ensures
        cognito_answer(code, message).0 == BAD_REQUEST,
{
    lemma_input_codes_differ();
}

/// The codes of our own setup's failures differ from every code the table
/// lists before them.
proof fn lemma_setup_codes_differ()
    ensures
        "UnrecognizedClientException"@ != "NotAuthorizedException"@,
        "UnrecognizedClientException"@ != "UserNotConfirmedException"@,
        "UnrecognizedClientException"@ != "PasswordResetRequiredException"@,
        "UnrecognizedClientException"@ != "UserNotFoundException"@,
        "UnrecognizedClientException"@ != "AccessDeniedException"@,
        "UnrecognizedClientException"@ != "TooManyRequestsException"@,
        "UnrecognizedClientException"@ != "LimitExceededException"@,
        "UnrecognizedClientException"@ != "TooManyFailedAttemptsException"@,
        "UnrecognizedClientException"@ != "CodeMismatchException"@,
        "UnrecognizedClientException"@ != "ExpiredCodeException"@,
        "UnrecognizedClientException"@ != "InvalidPasswordException"@,
        "UnrecognizedClientException"@ != "InvalidParameterException"@,
        "UnrecognizedClientException"@ != "UsernameExistsException"@,
        "UnrecognizedClientException"@ != "GroupExistsException"@,
        "UnrecognizedClientException"@ != "EnableSoftwareTokenMFAException"@,
        "UnrecognizedClientException"@ != "SoftwareTokenMFANotFoundException"@,
        "UnrecognizedClientException"@ != "AliasExistsException"@,
        "InvalidSignatureException"@ != "NotAuthorizedException"@,
        "InvalidSignatureException"@ != "UserNotConfirmedException"@,
        "InvalidSignatureException"@ != "PasswordResetRequiredException"@,
        "InvalidSignatureException"@ != "UserNotFoundException"@,
        "InvalidSignatureException"@ != "AccessDeniedException"@,
        "InvalidSignatureException"@ != "TooManyRequestsException"@,
        "InvalidSignatureException"@ != "LimitExceededException"@,
        "InvalidSignatureException"@ != "TooManyFailedAttemptsException"@,
        "InvalidSignatureException"@ != "CodeMismatchException"@,
        "InvalidSignatureException"@ != "ExpiredCodeException"@,
        "InvalidSignatureException"@ != "InvalidPasswordException"@,
        "InvalidSignatureException"@ != "InvalidParameterException"@,
        "InvalidSignatureException"@ != "UsernameExistsException"@,
        "InvalidSignatureException"@ != "GroupExistsException"@,
        "InvalidSignatureException"@ != "EnableSoftwareTokenMFAException"@,
        "InvalidSignatureException"@ != "SoftwareTokenMFANotFoundException"@,
        "InvalidSignatureException"@ != "AliasExistsException"@,
        "InvalidSignatureException"@ != "UnrecognizedClientException"@,
        "ResourceNotFoundException"@ != "NotAuthorizedException"@,
        "ResourceNotFoundException"@ != "UserNotConfirmedException"@,
        "ResourceNotFoundException"@ != "PasswordResetRequiredException"@,
        "ResourceNotFoundException"@ != "UserNotFoundException"@,
        "ResourceNotFoundException"@ != "AccessDeniedException"@,
        "ResourceNotFoundException"@ != "TooManyRequestsException"@,
        "ResourceNotFoundException"@ != "LimitExceededException"@,
        "ResourceNotFoundException"@ != "TooManyFailedAttemptsException"@,
        "ResourceNotFoundException"@ != "CodeMismatchException"@,
        "ResourceNotFoundException"@ != "ExpiredCodeException"@,
        "ResourceNotFoundException"@ != "InvalidPasswordException"@,
        "ResourceNotFoundException"@ != "InvalidParameterException"@,
        "ResourceNotFoundException"@ != "UsernameExistsException"@,
        "ResourceNotFoundException"@ != "GroupExistsException"@,
        "ResourceNotFoundException"@ != "EnableSoftwareTokenMFAException"@,
        "ResourceNotFoundException"@ != "SoftwareTokenMFANotFoundException"@,
        "ResourceNotFoundException"@ != "AliasExistsException"@,
        "ResourceNotFoundException"@ != "UnrecognizedClientException"@,
        "ResourceNotFoundException"@ != "InvalidSignatureException"@,
{
    reveal_strlit("NotAuthorizedException");
    reveal_strlit("UserNotConfirmedException");
    reveal_strlit("PasswordResetRequiredException");
    reveal_strlit("UserNotFoundException");
    reveal_strlit("AccessDeniedException");
    reveal_strlit("TooManyRequestsException");
    reveal_strlit("LimitExceededException");
    reveal_strlit("TooManyFailedAttemptsException");
    reveal_strlit("CodeMismatchException");
    reveal_strlit("ExpiredCodeException");
    reveal_strlit("InvalidPasswordException");
    reveal_strlit("InvalidParameterException");
    reveal_strlit("UsernameExistsException");
    reveal_strlit("GroupExistsException");
    reveal_strlit("EnableSoftwareTokenMFAException");
    reveal_strlit("SoftwareTokenMFANotFoundException");
    reveal_strlit("AliasExistsException");
    reveal_strlit("UnrecognizedClientException");
    reveal_strlit("InvalidSignatureException");
    reveal_strlit("ResourceNotFoundException");
    assert("UnrecognizedClientException"@.len() != "NotAuthorizedException"@.len());
    assert("UnrecognizedClientException"@.len() != "UserNotConfirmedException"@.len());
    assert("UnrecognizedClientException"@.len() != "PasswordResetRequiredException"@.len());
    assert("UnrecognizedClientException"@.len() != "UserNotFoundException"@.len());
    assert("UnrecognizedClientException"@.len() != "AccessDeniedException"@.len());
    assert("UnrecognizedClientException"@.len() != "TooManyRequestsException"@.len());
    assert("UnrecognizedClientException"@.len() != "LimitExceededException"@.len());
    assert("UnrecognizedClientException"@.len() != "TooManyFailedAttemptsException"@.len());
    assert("UnrecognizedClientException"@.len() != "CodeMismatchException"@.len());
    assert("UnrecognizedClientException"@.len() != "ExpiredCodeException"@.len());
    assert("UnrecognizedClientException"@.len() != "InvalidPasswordException"@.len());
    assert("UnrecognizedClientException"@.len() != "InvalidParameterException"@.len());
    assert("UnrecognizedClientException"@.len() != "UsernameExistsException"@.len());
    assert("UnrecognizedClientException"@.len() != "GroupExistsException"@.len());
    assert("UnrecognizedClientException"@.len() != "EnableSoftwareTokenMFAException"@.len());
    assert("UnrecognizedClientException"@.len() != "SoftwareTokenMFANotFoundException"@.len());
    assert("UnrecognizedClientException"@.len() != "AliasExistsException"@.len());
    assert("InvalidSignatureException"@.len() != "NotAuthorizedException"@.len());
    assert("InvalidSignatureException"@[0] != "UserNotConfirmedException"@[0]);
    assert("InvalidSignatureException"@.len() != "PasswordResetRequiredException"@.len());
    assert("InvalidSignatureException"@.len() != "UserNotFoundException"@.len());
    assert("InvalidSignatureException"@.len() != "AccessDeniedException"@.len());
    assert("InvalidSignatureException"@.len() != "TooManyRequestsException"@.len());
    assert("InvalidSignatureException"@.len() != "LimitExceededException"@.len());
    assert("InvalidSignatureException"@.len() != "TooManyFailedAttemptsException"@.len());
    assert("InvalidSignatureException"@.len() != "CodeMismatchException"@.len());
    assert("InvalidSignatureException"@.len() != "ExpiredCodeException"@.len());
    assert("InvalidSignatureException"@.len() != "InvalidPasswordException"@.len());
    assert("InvalidSignatureException"@[7] != "InvalidParameterException"@[7]);
    assert("InvalidSignatureException"@.len() != "UsernameExistsException"@.len());
    assert("InvalidSignatureException"@.len() != "GroupExistsException"@.len());
    assert("InvalidSignatureException"@.len() != "EnableSoftwareTokenMFAException"@.len());
    assert("InvalidSignatureException"@.len() != "SoftwareTokenMFANotFoundException"@.len());
    assert("InvalidSignatureException"@.len() != "AliasExistsException"@.len());
    assert("InvalidSignatureException"@.len() != "UnrecognizedClientException"@.len());
    assert("ResourceNotFoundException"@.len() != "NotAuthorizedException"@.len());
    assert("ResourceNotFoundException"@[0] != "UserNotConfirmedException"@[0]);
    assert("ResourceNotFoundException"@.len() != "PasswordResetRequiredException"@.len());
    assert("ResourceNotFoundException"@.len() != "UserNotFoundException"@.len());
    assert("ResourceNotFoundException"@.len() != "AccessDeniedException"@.len());
    assert("ResourceNotFoundException"@.len() != "TooManyRequestsException"@.len());
    assert("ResourceNotFoundException"@.len() != "LimitExceededException"@.len());
    assert("ResourceNotFoundException"@.len() != "TooManyFailedAttemptsException"@.len());
    assert("ResourceNotFoundException"@.len() != "CodeMismatchException"@.len());
    assert("ResourceNotFoundException"@.len() != "ExpiredCodeException"@.len());
    assert("ResourceNotFoundException"@.len() != "InvalidPasswordException"@.len());
    assert("ResourceNotFoundException"@[0] != "InvalidParameterException"@[0]);
    assert("ResourceNotFoundException"@.len() != "UsernameExistsException"@.len());
    assert("ResourceNotFoundException"@.len() != "GroupExistsException"@.len());
    assert("ResourceNotFoundException"@.len() != "EnableSoftwareTokenMFAException"@.len());
    assert("ResourceNotFoundException"@.len() != "SoftwareTokenMFANotFoundException"@.len());
    assert("ResourceNotFoundException"@.len() != "AliasExistsException"@.len());
    assert("ResourceNotFoundException"@.len() != "UnrecognizedClientException"@.len());
    assert("ResourceNotFoundException"@[0] != "InvalidSignatureException"@[0]);
}

/// A failure of our own credentials, app client or pool is an upstream
/// failure the caller can do nothing about: a 502, with our wording.
pub proof fn law_own_setup_errors_are_502(code: Seq<char>, message: Option<Seq<char>>)
    requires
        code == "UnrecognizedClientException"@ || code == "InvalidSignatureException"@ || code
            == "ResourceNotFoundException"@,
    ensures
        cognito_answer(code, message).0 == BAD_GATEWAY,
        cognito_answer(code, message).1 matches TextView::Catalog { key, args } && args.len() == 0,
{
    lemma_setup_codes_differ();
}

/// A code we have no wording for is an outage as far as the caller can
/// tell: a 502 with Cognito's own message, or our generic wording when it
/// sent none.
pub proof fn law_unknown_errors_are_502(code: Seq<char>, message: Option<Seq<char>>)
    requires
        !caller_error(code),
        code != "UnrecognizedClientException"@,
        code != "InvalidSignatureException"@,
        code != "ResourceNotFoundException"@,
    ensures
        cognito_answer(code, message) == match message {
            Some(m) => (BAD_GATEWAY, TextView::Verbatim(m)),
            None => (BAD_GATEWAY, entry("error_unexpected"@)),
        },
{
}

/// Turns the code and message of a failed Cognito call into an ApiError. A
/// missing code reads as the empty one.
pub fn cognito(code: Option<&str>, message: Option<&str>) -> (r: ApiError)
    ensures
        ({
            let c = match code {
                Some(c) => c@,
                None => Seq::<char>::empty(),
            };
            let m = match message {
                Some(m) => Some(m@),
                None => None,
            };
            r.status == cognito_answer(c, m).0 && r.text@ == cognito_answer(c, m).1
        }),
{
    let c = match code {
        Some(c) => c,
        None => "",
    };
    proof {
        reveal_strlit("");
        assert(""@ =~= Seq::<char>::empty());
    }
    match known(c) {
        Some((key, status)) => ApiError::new(status, Text::key(key)),
        None => match message {
            Some(m) => ApiError::new(BAD_GATEWAY, Text::Verbatim(String::from_str(m))),
            None => ApiError::new(BAD_GATEWAY, Text::key("error_unexpected")),
        },
    }
}

/// Like `cognito`, but a `ResourceNotFoundException` names the thing the call
/// was about rather than the pool, and answers 404 with `key`.
pub fn cognito_or_missing(code: Option<&str>, message: Option<&str>, key: &str) -> (r: ApiError)
    ensures
        (code matches Some(c) && c@ == "ResourceNotFoundException"@) ==> says(r, NOT_FOUND, entry(key@)),
        !(code matches Some(c) && c@ == "ResourceNotFoundException"@) ==> ({
            let c = match code {
                Some(c) => c@,
                None => Seq::<char>::empty(),
            };
            let m = match message {
                Some(m) => Some(m@),
                None => None,
            };
            r.status == cognito_answer(c, m).0 && r.text@ == cognito_answer(c, m).1
        }),
{
    match code {
        Some(c) => {
            if str_eq(c, "ResourceNotFoundException") {
                return ApiError::not_found(Text::key(key));
            }
        },
        None => {},
    }
    cognito(code, message)
}

/// A failed Cognito call as the service reported it: its error code and
/// message, where it gave them.
pub struct Failure {
    pub code: Option<String>,
    pub message: Option<String>,
}

pub open spec fn code_of(f: Failure) -> Seq<char> {
    match f.code {
        Some(c) => c@,
        None => Seq::<char>::empty(),
    }
}

pub open spec fn message_of(f: Failure) -> Option<Seq<char>> {
    match f.message {
        Some(m) => Some(m@),
        None => None,
    }
}

/// `e` is how the failure `f` is answered.
pub open spec fn answers(e: ApiError, f: Failure) -> bool {
    e.status == cognito_answer(code_of(f), message_of(f)).0 && e.text@ == cognito_answer(
        code_of(f),
        message_of(f),
    ).1
}

/// `f` reports that the thing the call named does not exist.
pub open spec fn is_missing(f: Failure) -> bool {
    f.code matches Some(c) && c@ == "ResourceNotFoundException"@
}

/// The text an optional `String` holds, borrowed.
pub fn borrowed(o: &Option<String>) -> (r: Option<&str>)
    ensures
        match (r, *o) {
            (Some(a), Some(b)) => a@ == b@,
            (None, None) => true,
            _ => false,
        },
{
    match o {
        Some(s) => Some(s.as_str()),
        None => None,
    }
}

impl Failure {
    /// The answer to this failure; see `cognito`.
    pub fn answer(&self) -> (r: ApiError)
        ensures
            answers(r, *self),
    {
        cognito(borrowed(&self.code), borrowed(&self.message))
    }

    /// The answer to this failure where a missing resource is the thing the
    /// call named: 404 with `key`; see `cognito_or_missing`.
    pub fn answer_or_missing(&self, key: &str) -> (r: ApiError)
        ensures
            is_missing(*self) ==> says(r, NOT_FOUND, entry(key@)),
            !is_missing(*self) ==> answers(r, *self),
    {
        cognito_or_missing(borrowed(&self.code), borrowed(&self.message), key)
    }

    /// Whether the service reported the code `code`.
    pub fn has_code(&self, code: &str) -> (r: bool)
        ensures
            r == (self.code matches Some(c) && c@ == code@),
    {
        match &self.code {
            Some(c) => str_eq(c.as_str(), code),
            None => false,
        }
    }
}

} // verus!
