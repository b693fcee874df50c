//! The signed-in user's own account: what each request has to carry, and the
//! answers that follow from what Cognito said. Every call these lead to is
//! made with the caller's access token, so none of them can reach anybody
//! else's account.

use vstd::prelude::*;

use crate::attributes::{Changes, Patch};
use crate::error::{entry, entry_with, says, ApiError, TextView, Text, BAD_REQUEST, INTERNAL_SERVER_ERROR};
use crate::mfa::{otpauth_spec, TotpSetup};
use crate::schema::PoolInfo;
use crate::session::Session;
use crate::text::{join, joined, nonblank, str_eq, trim, trimmed, trimmed_nonblank};

verus! {

/// New values for the caller's own attributes: `None` deletes one.
pub struct PatchRequest {
    pub attributes: Patch,
}

pub struct PasswordRequest {
    pub current_password: String,
    pub new_password: String,
    pub confirm_password: String,
}

/// A password change needs both passwords, and the new one typed twice alike.
pub fn change_password_input(body: &PasswordRequest) -> (r: Result<(), ApiError>)
    ensures
        body.current_password@.len() == 0 || body.new_password@.len() == 0 ==> (r matches Err(e)
            && says(e, BAD_REQUEST, entry("error_password_required"@))),
        body.current_password@.len() > 0 && body.new_password@.len() > 0 && body.new_password@
            != body.confirm_password@ ==> (r matches Err(e) && says(
            e,
            BAD_REQUEST,
            entry("error_password_mismatch"@),
        )),
        body.current_password@.len() > 0 && body.new_password@.len() > 0 && body.new_password@
            == body.confirm_password@ ==> r is Ok,
{
    if body.current_password.as_str().unicode_len() == 0 || body.new_password.as_str().unicode_len()
        == 0 {
        return Err(ApiError::rejected("error_password_required"));
    }
    if !str_eq(body.new_password.as_str(), body.confirm_password.as_str()) {
        return Err(ApiError::rejected("error_password_mismatch"));
    }
    Ok(())
}

pub struct SendCodeRequest {
    pub attribute: String,
}

/// The attribute to send a verification code for, trimmed and required.
pub fn send_code_input(body: &SendCodeRequest) -> (r: Result<String, ApiError>)
    ensures
        trim(body.attribute@).len() == 0 <==> r is Err,
        r matches Ok(a) ==> a@ == trim(body.attribute@),
        r matches Err(e) ==> says(e, BAD_REQUEST, entry("error_verification_input"@)),
{
    let attribute = trimmed(body.attribute.as_str());
    if attribute.as_str().unicode_len() == 0 {
        return Err(ApiError::rejected("error_verification_input"));
    }
    Ok(attribute)
}

/// What the user is told once a code is on its way: where it went, when
/// Cognito says.
pub fn code_sent(destination: Option<&str>) -> (r: Text)
    ensures
        r@ == match destination {
            Some(d) => entry_with("msg_code_sent"@, "destination"@, d@),
            None => entry("msg_code_sent_generic"@),
        },
{
    match destination {
        Some(d) => Text::key_with("msg_code_sent", "destination", d),
        None => Text::key("msg_code_sent_generic"),
    }
}

pub struct VerifyRequest {
    pub attribute: String,
    pub code: String,
}

/// The attribute and the code that verifies it, both trimmed and required.
pub fn verify_input(body: &VerifyRequest) -> (r: Result<(String, String), ApiError>)
    ensures
        trim(body.attribute@).len() == 0 || trim(body.code@).len() == 0 <==> r is Err,
        r matches Ok((a, c)) ==> a@ == trim(body.attribute@) && c@ == trim(body.code@),
        r matches Err(e) ==> says(e, BAD_REQUEST, entry("error_verification_input"@)),
{
    let attribute = trimmed(body.attribute.as_str());
    let code = trimmed(body.code.as_str());
    if attribute.as_str().unicode_len() == 0 || code.as_str().unicode_len() == 0 {
        return Err(ApiError::rejected("error_verification_input"));
    }
    Ok((attribute, code))
}

/// Which of the two calls a patch leads to.
pub struct UpdatePlan {
    /// Some attributes are to be deleted.
    pub delete: bool,
    /// Some attributes are to be written.
    pub update: bool,
}

pub fn plan_update(changes: &Changes) -> (r: UpdatePlan)
    ensures
        r.delete == (changes.to_delete@.len() > 0),
        r.update == (changes.attributes@.len() > 0),
{
    UpdatePlan { delete: changes.to_delete.len() > 0, update: changes.attributes.len() > 0 }
}

/// What the user is told after updating their own profile. `pending` names
/// the attributes Cognito sent a confirmation code for, as changing an email
/// address or phone number does.
pub open spec fn profile_reply(plan: UpdatePlan, pending: Seq<Seq<char>>) -> TextView {
    if !plan.delete && !plan.update {
        entry("msg_no_changes"@)
    } else if !plan.update || pending.len() == 0 {
        entry("msg_profile_updated"@)
    } else {
        entry_with("msg_profile_updated_pending"@, "attributes"@, joined(pending, " / "@))
    }
}

pub fn profile_updated(plan: &UpdatePlan, pending: &Vec<String>) -> (r: Text)
    ensures
        r@ == profile_reply(*plan, pending@.map_values(|p: String| p@)),
{
    if !plan.delete && !plan.update {
        Text::key("msg_no_changes")
    } else if !plan.update || pending.len() == 0 {
        Text::key("msg_profile_updated")
    } else {
        let list = join(pending, " / ");
        Text::key_with("msg_profile_updated_pending", "attributes", list.as_str())
    }
}

/// The label an authenticator app shows: the pool this account belongs to
/// (its name, or its id when it has none), and the address the user knows
/// themselves by (their email, or their username).
pub fn totp_label(pool: &PoolInfo, session: &Session) -> (r: (String, String))
    ensures
        r.0@ == match pool.name {
            Some(n) => n@,
            None => pool.id@,
        },
        r.1@ == match session.email {
            Some(e) => e@,
            None => session.username@,
        },
{
    let issuer = match &pool.name {
        Some(n) => n.clone(),
        None => pool.id.clone(),
    };
    let account = match &session.email {
        Some(e) => e.clone(),
        None => session.username.clone(),
    };
    (issuer, account)
}

/// The enrolment to hand out for the secret Cognito associated; a token
/// associated without a secret is the service's fault.
pub fn totp_setup(secret: Option<&str>, pool: &PoolInfo, session: &Session) -> (r: Result<
    TotpSetup,
    ApiError,
>)
    ensures
        secret is None ==> (r matches Err(e) && says(e, INTERNAL_SERVER_ERROR, entry("error_unexpected"@))),
        secret matches Some(s) ==> (r matches Ok(setup) && setup.secret_code@ == s@
            && setup.otpauth_uri@ == otpauth_spec(
            s@,
            match pool.name {
                Some(n) => n@,
                None => pool.id@,
            },
            match session.email {
                Some(e) => e@,
                None => session.username@,
            },
        )),
{
    match secret {
        None => Err(ApiError::internal()),
        Some(s) => {
            let (issuer, account) = totp_label(pool, session);
            Ok(TotpSetup::new(s, issuer.as_str(), account.as_str()))
        },
    }
}

pub struct TotpRequest {
    pub code: String,
    pub device_name: Option<String>,
}

/// The code from the authenticator app, trimmed and required, and the device
/// name, trimmed and left out when blank.
pub fn totp_input(body: &TotpRequest) -> (r: Result<(String, Option<String>), ApiError>)
    ensures
        trim(body.code@).len() == 0 <==> r is Err,
        r matches Err(e) ==> says(e, BAD_REQUEST, entry("error_code_required"@)),
        r matches Ok((code, device)) ==> code@ == trim(body.code@) && match device {
            Some(d) => nonblank(body.device_name) == Some(d@),
            None => nonblank(body.device_name) is None,
        },
{
    let code = trimmed(body.code.as_str());
    if code.as_str().unicode_len() == 0 {
        return Err(ApiError::rejected("error_code_required"));
    }
    Ok((code, trimmed_nonblank(&body.device_name)))
}

/// A wrong code is usually an error of its own; this covers the pool that
/// answers with a status instead: anything but `SUCCESS` is a mismatch.
pub fn totp_verified(status: Option<&str>) -> (r: Result<(), ApiError>)
    ensures
        r is Ok <==> (status matches Some(s) && s@ == "SUCCESS"@),
        r matches Err(e) ==> says(e, BAD_REQUEST, entry("error_code_mismatch"@)),
{
    match status {
        Some(s) => if str_eq(s, "SUCCESS") {
            return Ok(());
        },
        None => {},
    }
    Err(ApiError::rejected("error_code_mismatch"))
}

/// A passkey to register has to come as the credential object the browser
/// made; it is passed on untouched, as only Cognito can check it.
pub fn passkey_input(is_object: bool) -> (r: Result<(), ApiError>)
    ensures
        r is Ok <==> is_object,
        r matches Err(e) ==> says(e, BAD_REQUEST, entry("error_passkey_required"@)),
{
    if is_object {
        Ok(())
    } else {
        Err(ApiError::rejected("error_passkey_required"))
    }
}

} // verus!
