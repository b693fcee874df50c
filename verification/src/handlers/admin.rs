//! User administration: what the admin screens' requests have to carry, the
//! temporary password a new user gets, and the guards that keep an admin from
//! locking themselves out.

use vstd::prelude::*;

use crate::attributes::Patch;
use crate::error::{entry, entry_with, says, ApiError, Text, TextView, BAD_REQUEST, INTERNAL_SERVER_ERROR};
use crate::handlers::account::UpdatePlan;
use crate::password::{generate, in_alphabet, password_of, satisfies, target_length};
use crate::schema::PoolInfo;
use crate::session::{contains_name, has_name, Session};
use crate::text::{trim, trimmed};
use crate::users::{filter_spec, search_field, search_fields_spec, user_filter};

verus! {

/// The user search: a term, the field to match it on, and the page.
pub struct ListQuery {
    pub q: String,
    pub field: Option<String>,
    pub token: Option<String>,
}

/// The field a search runs on (the one asked for when it is searchable,
/// `email` otherwise) and the ListUsers filter for the term, if any.
pub fn search(query: &ListQuery) -> (r: (&'static str, Option<String>))
    ensures
        search_fields_spec().contains(r.0@),
        (query.field matches Some(f) && search_fields_spec().contains(f@)) ==> r.0@ == query.field->0@,
        !(query.field matches Some(f) && search_fields_spec().contains(f@)) ==> r.0@ == "email"@,
        match r.1 {
            Some(f) => filter_spec(query.q@, r.0@) == Some(f@),
            None => filter_spec(query.q@, r.0@) is None,
        },
{
    let requested = match &query.field {
        Some(f) => Some(f.as_str()),
        None => None,
    };
    let field = search_field(requested);
    (field, user_filter(query.q.as_str(), field))
}

/// New attribute values for an existing user: `None` deletes one.
pub struct PatchRequest {
    pub attributes: Patch,
}

/// The groups a user is to be in, all of them.
pub struct GroupsRequest {
    pub groups: Vec<String>,
}

/// A password an admin sets: permanent, or temporary until the user's next
/// sign-in.
pub struct PasswordRequest {
    pub password: String,
    pub permanent: bool,
}

pub struct EnabledRequest {
    pub enabled: bool,
}

pub struct CreateRequest {
    pub username: String,
    pub attributes: Patch,
    pub temporary_password: String,
    pub suppress_message: bool,
    pub groups: Vec<String>,
}

/// Whether `username` names the caller, by username or by sub.
pub open spec fn names_self(session: Session, username: Seq<char>) -> bool {
    session.username@ == username || session.sub@ == username
}

/// Guard for destructive actions on the signed-in admin, to avoid lockout:
/// refused with the catalog entry `key` when `username` is the caller.
pub fn deny_self(session: &Session, username: &str, key: &str) -> (r: Result<(), ApiError>)
    ensures
        r is Err <==> names_self(*session, username@),
        r matches Err(e) ==> says(e, BAD_REQUEST, entry(key@)),
{
    if session.is_self(username) {
        Err(ApiError::rejected(key))
    } else {
        Ok(())
    }
}

/// The temporary password a new user is created with, and the one made up
/// here, if any.
pub struct TemporaryPassword {
    pub sent: Option<String>,
    pub generated: Option<String>,
}

/// Cognito only makes up a temporary password of its own when the new user
/// has an email address or phone number to deliver it to, so a blank field
/// is filled in here instead of being left out of the request. A passwordless
/// pool is the exception: there the user is created without one. A typed
/// password is sent as typed, trimmed.
pub fn temporary_password(given: &str, pool: &PoolInfo) -> (r: Result<TemporaryPassword, ApiError>)
    ensures
        trim(given@).len() > 0 ==> (r matches Ok(t) && t.generated is None && (t.sent matches Some(
            s,
        ) && s@ == trim(given@))),
        trim(given@).len() == 0 && !pool.password_sign_in ==> (r matches Ok(t) && t.generated is None
            && t.sent is None),
        trim(given@).len() == 0 && pool.password_sign_in ==> match r {
            Ok(t) => t.sent == t.generated && (t.generated matches Some(g) && {
                &&& g@.len() == target_length(pool.password_policy.minimum_length)
                &&& forall|i: int| 0 <= i < g@.len() ==> in_alphabet(#[trigger] g@[i])
                &&& satisfies(g@, pool.password_policy)
                &&& exists|draws: Seq<u32>| #[trigger] password_of(pool.password_policy, draws)
                    == Some(g@)
            }),
            Err(e) => says(e, INTERNAL_SERVER_ERROR, entry("error_unexpected"@)),
        },
{
    let typed = trimmed(given);
    if typed.as_str().unicode_len() > 0 {
        return Ok(TemporaryPassword { sent: Some(typed), generated: None });
    }
    if !pool.password_sign_in {
        return Ok(TemporaryPassword { sent: None, generated: None });
    }
    match generate(&pool.password_policy) {
        Ok(p) => {
            let copy = p.clone();
            Ok(TemporaryPassword { sent: Some(copy), generated: Some(p) })
        },
        Err(_) => Err(ApiError::internal()),
    }
}

/// A suppressed invitation is never delivered, so a password made up here
/// would be known to nobody and the account unusable until it was reset:
/// handing it back is the only way it reaches the new user. When Cognito
/// mails the invitation there is nothing to disclose.
pub fn disclosed(suppress_message: bool, generated: Option<String>) -> (r: Option<String>)
    ensures
        r == (if suppress_message {
            generated
        } else {
            None
        }),
{
    if suppress_message {
        generated
    } else {
        None
    }
}

/// The names in `xs` that `ys` does not hold, in the order of `xs`.
pub open spec fn missing_from(xs: Seq<String>, ys: Seq<String>) -> Seq<String>
    decreases xs.len(),
{
    if xs.len() == 0 {
        Seq::empty()
    } else if contains_name(ys, xs.last()@) {
        missing_from(xs.drop_last(), ys)
    } else {
        missing_from(xs.drop_last(), ys).push(xs.last())
    }
}

fn missing(xs: &Vec<String>, ys: &Vec<String>) -> (r: Vec<String>)
    ensures
        r@ == missing_from(xs@, ys@),
{
    let mut r: Vec<String> = Vec::new();
    let mut i: usize = 0;
    while i < xs.len()
        invariant
            i <= xs@.len(),
            r@ == missing_from(xs@.subrange(0, i as int), ys@),
        decreases xs@.len() - i,
    {
        assert(xs@.subrange(0, i + 1).drop_last() =~= xs@.subrange(0, i as int));
        if !has_name(ys, xs[i].as_str()) {
            r.push(xs[i].clone());
        }
        i = i + 1;
    }
    assert(xs@.subrange(0, xs@.len() as int) =~= xs@);
    r
}

/// What changing a user's groups to `requested` takes, given the groups
/// they are in: the groups to join and the groups to leave. An admin who
/// drops the admin group from their own account would lock themselves out of
/// this screen, so that is refused.
pub fn group_changes(
    session: &Session,
    username: &str,
    current: &Vec<String>,
    requested: &Vec<String>,
    admin_group: &str,
) -> (r: Result<(Vec<String>, Vec<String>), ApiError>)
    ensures
        r is Err <==> (names_self(*session, username@) && contains_name(current@, admin_group@)
            && !contains_name(requested@, admin_group@)),
        r matches Err(e) ==> says(e, BAD_REQUEST, entry_with("error_self_admin_group"@, "group"@, admin_group@)),
        r matches Ok((join, leave)) ==> join@ == missing_from(requested@, current@) && leave@
            == missing_from(current@, requested@),
{
    if session.is_self(username) && has_name(current, admin_group) && !has_name(requested, admin_group) {
        return Err(ApiError::rejected_with("error_self_admin_group", "group", admin_group));
    }
    Ok((missing(requested, current), missing(current, requested)))
}

proof fn lemma_missing_from_contains(xs: Seq<String>, ys: Seq<String>, name: Seq<char>)
    ensures
        contains_name(missing_from(xs, ys), name) <==> (contains_name(xs, name) && !contains_name(
            ys,
            name,
        )),
    decreases xs.len(),
{
    if xs.len() > 0 {
        let rest = xs.drop_last();
        lemma_missing_from_contains(rest, ys, name);
        let m = missing_from(rest, ys);
        if contains_name(xs, name) {
            let i = choose|i: int| 0 <= i < xs.len() && #[trigger] xs[i]@ == name;
            if i < xs.len() - 1 {
                assert(rest[i]@ == name);
            }
        }
        if contains_name(rest, name) {
            let i = choose|i: int| 0 <= i < rest.len() && #[trigger] rest[i]@ == name;
            assert(xs[i]@ == name);
        }
        if !contains_name(ys, xs.last()@) {
            let m2 = m.push(xs.last());
            if contains_name(m2, name) {
                let i = choose|i: int| 0 <= i < m2.len() && #[trigger] m2[i]@ == name;
                if i < m.len() {
                    assert(m[i]@ == name);
                }
            }
            if contains_name(m, name) {
                let i = choose|i: int| 0 <= i < m.len() && #[trigger] m[i]@ == name;
                assert(m2[i]@ == name);
            }
            assert(m2[m.len() as int] == xs.last());
        }
    }
}

/// Joining the groups to join and leaving the groups to leave puts the user
/// in exactly the requested groups.
pub proof fn law_group_changes_reach_the_request(current: Seq<String>, requested: Seq<String>, name: Seq<char>)
    ensures
        ((contains_name(current, name) || contains_name(missing_from(requested, current), name))
            && !contains_name(missing_from(current, requested), name)) <==> contains_name(
            requested,
            name,
        ),
{
    lemma_missing_from_contains(requested, current, name);
    lemma_missing_from_contains(current, requested, name);
}

/// A password to set is required.
pub fn set_password_input(body: &PasswordRequest) -> (r: Result<(), ApiError>)
    ensures
        r is Err <==> body.password@.len() == 0,
        r matches Err(e) ==> says(e, BAD_REQUEST, entry("error_password_required"@)),
{
    if body.password.as_str().unicode_len() == 0 {
        Err(ApiError::rejected("error_password_required"))
    } else {
        Ok(())
    }
}

/// What the admin is told once a password is set: permanent, or temporary
/// until the user's next sign-in.
pub fn password_set(permanent: bool) -> (r: Text)
    ensures
        r@ == if permanent {
            entry("msg_password_set"@)
        } else {
            entry("msg_temporary_password_set"@)
        },
{
    if permanent {
        Text::key("msg_password_set")
    } else {
        Text::key("msg_temporary_password_set")
    }
}

/// Enabling a user is always allowed; disabling oneself is not.
pub fn enabled_change(session: &Session, username: &str, enabled: bool) -> (r: Result<Text, ApiError>)
    ensures
        r is Err <==> (!enabled && names_self(*session, username@)),
        r matches Err(e) ==> says(e, BAD_REQUEST, entry("error_self_disable"@)),
        r matches Ok(t) ==> t@ == if enabled {
            entry("msg_user_enabled"@)
        } else {
            entry("msg_user_disabled"@)
        },
{
    if enabled {
        return Ok(Text::key("msg_user_enabled"));
    }
    match deny_self(session, username, "error_self_disable") {
        Ok(()) => Ok(Text::key("msg_user_disabled")),
        Err(e) => Err(e),
    }
}

/// What the admin is told after editing a user's attributes.
pub fn attributes_updated(plan: &UpdatePlan) -> (r: Text)
    ensures
        r@ == if !plan.delete && !plan.update {
            entry("msg_no_changes"@)
        } else {
            entry("msg_attributes_updated"@)
        },
{
    if !plan.delete && !plan.update {
        Text::key("msg_no_changes")
    } else {
        Text::key("msg_attributes_updated")
    }
}

} // verus!
