//! What the frontend reads before it shows anything: who the caller is, and
//! the pool's schema and groups, cut down to what the caller may see.

use vstd::prelude::*;

use crate::schema::{keeps, AttributeField, FieldSet, PoolInfo};
use crate::session::Session;
use crate::users::{search_fields, search_fields_spec};

verus! {

/// Who the caller is. The frontend reads this on load to pick its first
/// screen.
pub struct SessionInfo {
    pub username: String,
    pub email: Option<String>,
    pub groups: Vec<String>,
    pub is_admin: bool,
}

impl SessionInfo {
    pub fn of(session: Session) -> (r: SessionInfo)
        ensures
            r.username == session.username,
            r.email == session.email,
            r.groups == session.groups,
            r.is_admin == session.is_admin,
    {
        SessionInfo {
            username: session.username,
            email: session.email,
            groups: session.groups,
            is_admin: session.is_admin,
        }
    }
}

/// The pool as the attribute forms need it.
pub struct PoolResponse {
    pub id: String,
    pub name: Option<String>,
    pub username_is_email: bool,
    /// `OFF`, `ON` or `OPTIONAL`, so the MFA forms can say when the pool
    /// itself has second factors switched off.
    pub mfa_configuration: String,
    /// Whether the account screen offers to register a passkey.
    pub passkey_sign_in: bool,
    /// The subset each screen may edit, resolved here so a client cannot
    /// widen it by asking for a different list.
    pub self_editable: Vec<AttributeField>,
    pub admin_visible: Vec<AttributeField>,
    pub editable: Vec<AttributeField>,
    pub groups: Vec<String>,
    /// The group that grants access to the admin console, so the group
    /// screens can mark it and leave out the delete button the server would
    /// refuse.
    pub admin_group: Option<String>,
    /// Attributes the user search may filter on, served rather than mirrored
    /// in the frontend so the two lists cannot drift apart.
    pub search_fields: Vec<&'static str>,
}

/// What the caller gets to see of the pool: everyone sees the fields they
/// may edit on themselves; only admins see the admin subsets, the groups
/// (`group_names`, read only for them), the admin group and the search
/// fields.
pub fn pool_response(pool: &PoolInfo, is_admin: bool, group_names: Vec<String>, admin_group: &str) -> (r:
    PoolResponse)
    ensures
        r.id == pool.id,
        r.name == pool.name,
        r.username_is_email == pool.username_is_email,
        r.mfa_configuration == pool.mfa_configuration,
        r.passkey_sign_in == pool.passkeys_usable,
        r.self_editable@ == pool.fields@.filter(|f: AttributeField| keeps(FieldSet::SelfEditable, f)),
        is_admin ==> r.admin_visible@ == pool.fields@.filter(
            |f: AttributeField| keeps(FieldSet::AdminVisible, f),
        ),
        is_admin ==> r.editable@ == pool.fields@.filter(|f: AttributeField| keeps(FieldSet::Editable, f)),
        is_admin ==> r.groups@ == group_names@,
        is_admin ==> (r.admin_group matches Some(g) && g@ == admin_group@),
        is_admin ==> r.search_fields@.map_values(|s: &'static str| s@) == search_fields_spec(),
        !is_admin ==> r.admin_visible@.len() == 0 && r.editable@.len() == 0 && r.groups@.len() == 0
            && r.admin_group is None && r.search_fields@.len() == 0,
{
    PoolResponse {
        id: pool.id.clone(),
        name: match &pool.name {
            Some(n) => Some(n.clone()),
            None => None,
        },
        username_is_email: pool.username_is_email,
        mfa_configuration: pool.mfa_configuration.clone(),
        passkey_sign_in: pool.passkeys_usable,
        self_editable: pool.self_editable(),
        admin_visible: if is_admin {
            pool.admin_visible()
        } else {
            Vec::new()
        },
        editable: if is_admin {
            pool.editable()
        } else {
            Vec::new()
        },
        groups: if is_admin {
            group_names
        } else {
            Vec::new()
        },
        admin_group: if is_admin {
            Some(String::from_str(admin_group))
        } else {
            None
        },
        search_fields: if is_admin {
            search_fields()
        } else {
            Vec::new()
        },
    }
}

/// What the sign-in screen shows before there is a session.
pub struct PublicInfo {
    pub pool_name: Option<String>,
    /// Whether to offer the passkey button. Also false when the pool cannot
    /// be described, which leaves no button rather than one that cannot
    /// work.
    pub passkey_sign_in: bool,
    pub version: String,
}

/// The sign-in screen's view of the pool, which it must get even when the
/// pool cannot be described (`None`).
pub fn public_info(pool: Option<&PoolInfo>, version: &str) -> (r: PublicInfo)
    ensures
        match pool {
            Some(p) => r.pool_name == p.name && r.passkey_sign_in == p.passkeys_usable,
            None => r.pool_name is None && !r.passkey_sign_in,
        },
        r.version@ == version@,
{
    match pool {
        Some(p) => PublicInfo {
            pool_name: match &p.name {
                Some(n) => Some(n.clone()),
                None => None,
            },
            passkey_sign_in: p.passkeys_usable,
            version: String::from_str(version),
        },
        None => PublicInfo { pool_name: None, passkey_sign_in: false, version: String::from_str(version) },
    }
}

} // verus!
