//! Passkeys: the WebAuthn credentials a user registers on their own account.
//! What the browser is handed, and what it answers with, is JSON that Cognito
//! issues and verifies; neither half is read here.

use vstd::prelude::*;

verus! {

/// One registered passkey, as the account screen lists it. The friendly name
/// is Cognito's own; there is no way to pass one in.
pub struct Credential {
    pub id: String,
    pub name: String,
    pub relying_party_id: String,
    pub attachment: Option<String>,
    pub transports: Vec<String>,
    /// RFC 3339.
    pub created_at: Option<String>,
}

} // verus!
