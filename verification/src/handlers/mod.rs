//! What the endpoints decide, apart from the calls they make: the checks on
//! what a request carries, and the answers that follow from what Cognito
//! said.

pub mod account;
pub mod admin;
pub mod auth;
pub mod groups;
pub mod meta;

use vstd::prelude::*;

use crate::error::{entry, says, ApiError, BAD_REQUEST};
use crate::text::{trim, trimmed};

verus! {

/// Rows per page on the admin lists. Cognito pages both the user search and a
/// group's members by an opaque token, so the two have to ask for the same
/// size to page alike.
pub const PAGE_SIZE: i32 = 25;

/// A username as the caller typed it, trimmed, refused when blank: Cognito
/// answers a blank one with a bare parameter error that names no field.
pub fn username(raw: &str) -> (r: Result<String, ApiError>)
    ensures
        trim(raw@).len() == 0 <==> r is Err,
        r matches Ok(u) ==> u@ == trim(raw@),
        r matches Err(e) ==> says(e, BAD_REQUEST, entry("error_username_required"@)),
{
    let trimmed = trimmed(raw);
    if trimmed.as_str().unicode_len() == 0 {
        return Err(ApiError::rejected("error_username_required"));
    }
    Ok(trimmed)
}

} // verus!
