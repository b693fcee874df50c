//! What the request guards decide: the caller's language, whether session
//! cookies are marked Secure, and whether a session may use the admin screens.

use vstd::prelude::*;

use crate::error::{entry, says, ApiError, FORBIDDEN};
use crate::session::Session;
use crate::text::{before_first, contains_str, first_field, has_infix, lower, lowered, str_eq, trim, trimmed};

verus! {

/// Locale advertised by the frontend, already resolved to one we ship.
pub struct Lang(pub String);

/// Whether session cookies should carry the Secure attribute.
///
/// A Secure cookie is silently dropped by the client over plain HTTP, which
/// looks like a sign-in that succeeds and is unauthenticated on the very next
/// request. Deriving it from the request scheme keeps local HTTP working while
/// still marking cookies Secure behind a TLS-terminating proxy. SECURE_COOKIES
/// overrides the guess when a proxy does not forward the scheme.
pub struct SecureCookies(pub bool);

/// A session that also belongs to the admin group.
pub struct AdminSession(pub Session);

/// Whether a request reached us over HTTPS, from its `X-Forwarded-Proto` and
/// `Forwarded` headers (each `None` when absent or not visible ASCII) and the
/// scheme of its URI. A chain of proxies appends to `X-Forwarded-Proto`, so
/// the client-facing scheme is its first item.
pub open spec fn https_spec(
    forwarded_proto: Option<Seq<char>>,
    forwarded: Option<Seq<char>>,
    scheme: Option<Seq<char>>,
) -> bool {
    match forwarded_proto {
        Some(proto) => lower(trim(before_first(proto, ','))) == "https"@,
        None => match forwarded {
            Some(f) => has_infix(lower(f), "proto=https"@),
            None => scheme == Some("https"@),
        },
    }
}

pub open spec fn opt_str(o: Option<&str>) -> Option<Seq<char>> {
    match o {
        Some(s) => Some(s@),
        None => None,
    }
}

pub fn request_is_https(forwarded_proto: Option<&str>, forwarded: Option<&str>, scheme: Option<&str>) -> (r: bool)
    ensures
        r == https_spec(opt_str(forwarded_proto), opt_str(forwarded), opt_str(scheme)),
{
    match forwarded_proto {
        Some(proto) => {
            let first = first_field(proto, ',');
            let t = trimmed(first.as_str());
            let l = lowered(t.as_str());
            return str_eq(l.as_str(), "https");
        },
        None => {},
    }
    match forwarded {
        Some(f) => {
            let l = lowered(f);
            return contains_str(l.as_str(), "proto=https");
        },
        None => {},
    }
    match scheme {
        Some(s) => str_eq(s, "https"),
        None => false,
    }
}

/// The SECURE_COOKIES setting when there is one, the request's scheme otherwise.
pub fn resolve_secure(
    configured: Option<bool>,
    forwarded_proto: Option<&str>,
    forwarded: Option<&str>,
    scheme: Option<&str>,
) -> (r: bool)
    ensures
        r == match configured {
            Some(b) => b,
            None => https_spec(opt_str(forwarded_proto), opt_str(forwarded), opt_str(scheme)),
        },
{
    match configured {
        Some(b) => b,
        None => request_is_https(forwarded_proto, forwarded, scheme),
    }
}

impl AdminSession {
    /// Lets an admin session through; anyone else is forbidden.
    pub fn require_admin(session: Session) -> (r: Result<AdminSession, ApiError>)
        ensures
            session.is_admin ==> r == Ok::<AdminSession, ApiError>(AdminSession(session)),
            !session.is_admin ==> (r matches Err(e) && says(e, FORBIDDEN, entry("error_forbidden"@))),
    {
        if session.is_admin {
            Ok(AdminSession(session))
        } else {
            Err(ApiError::forbidden())
        }
    }
}

} // verus!
