//! Group administration: what a request to create, delete or change the
//! members of a group has to carry, and the guards that keep an admin from
//! locking everyone, or themselves, out of this console.

use vstd::prelude::*;

use crate::error::{entry, entry_with, says, ApiError, BAD_REQUEST};
use crate::session::Session;
use crate::text::{nonblank, str_eq, trim, trimmed, trimmed_nonblank};

verus! {

/// Which page of a group's members to read.
pub struct MembersQuery {
    pub token: Option<String>,
}

/// The user to add to a group, as typed: a username or an alias.
pub struct MemberRequest {
    pub username: String,
}

pub struct CreateRequest {
    pub name: String,
    pub description: Option<String>,
    /// Lower wins when a user is in several groups. Left out, Cognito assigns
    /// none, which sorts the group last.
    pub precedence: Option<i32>,
}

/// The name and description to create a group with: the name trimmed and
/// required, the description trimmed and left out when blank.
pub fn create_input(body: &CreateRequest) -> (r: Result<(String, Option<String>), ApiError>)
    ensures
        trim(body.name@).len() == 0 <==> r is Err,
        r matches Err(e) ==> says(e, BAD_REQUEST, entry("error_group_name_required"@)),
        r matches Ok((name, description)) ==> name@ == trim(body.name@) && match description {
            Some(d) => nonblank(body.description) == Some(d@),
            None => nonblank(body.description) is None,
        },
{
    let name = trimmed(body.name.as_str());
    if name.as_str().unicode_len() == 0 {
        return Err(ApiError::rejected("error_group_name_required"));
    }
    Ok((name, trimmed_nonblank(&body.description)))
}

/// Deleting the group that grants admin access would lock every admin out of
/// this console at once, and nothing in it could put them back.
pub fn delete_allowed(group: &str, admin_group: &str) -> (r: Result<(), ApiError>)
    ensures
        r is Err <==> group@ == admin_group@,
        r matches Err(e) ==> says(e, BAD_REQUEST, entry_with("error_delete_admin_group"@, "group"@, group@)),
{
    if str_eq(group, admin_group) {
        Err(ApiError::rejected_with("error_delete_admin_group", "group", group))
    } else {
        Ok(())
    }
}

/// Only removals from the admin group need the member looked up first.
pub fn is_admin_group(group: &str, admin_group: &str) -> (r: bool)
    ensures
        r == (group@ == admin_group@),
{
    str_eq(group, admin_group)
}

/// An admin who leaves the admin group cannot reach this page again to undo
/// it: removing the caller from it is refused. `member` is the username the
/// member resolved to.
pub fn removal_allowed(session: &Session, group: &str, admin_group: &str, member: &str) -> (r:
    Result<(), ApiError>)
    ensures
        r is Err <==> (group@ == admin_group@ && (session.username@ == member@ || session.sub@
            == member@)),
        r matches Err(e) ==> says(e, BAD_REQUEST, entry_with("error_self_admin_group"@, "group"@, group@)),
{
    if str_eq(group, admin_group) && session.is_self(member) {
        Err(ApiError::rejected_with("error_self_admin_group", "group", group))
    } else {
        Ok(())
    }
}

} // verus!
