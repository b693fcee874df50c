//! Resolving a client-advertised language code to a locale we ship.
//!
//! The HTTP layer feeds it the X-App-Lang header the frontend sends.

use vstd::prelude::*;

use crate::text::{before_first, first_field, lower, lowered, str_eq, trim, trimmed};

verus! {

/// The locales the message catalogs are shipped in.
pub open spec fn shipped(code: Seq<char>) -> bool {
    code == "en"@ || code == "ja"@
}

fn is_shipped(code: &str) -> (r: bool)
    ensures
        r == shipped(code@),
{
    str_eq(code, "en") || str_eq(code, "ja")
}

/// Locale used when a request advertises no language, or one we don't ship.
pub fn fallback() -> (r: &'static str)
    ensures
        r@ == "en"@,
{
    "en"
}

/// The shipped locale a language code names: the code itself, trimmed and
/// lower-cased, or else its primary subtag (`ja-JP` reads as `ja`).
pub open spec fn resolve_spec(code: Seq<char>) -> Option<Seq<char>> {
    let code = lower(trim(code));
    if code.len() == 0 {
        None
    } else if shipped(code) {
        Some(code)
    } else if shipped(before_first(code, '-')) {
        Some(before_first(code, '-'))
    } else {
        None
    }
}

pub fn resolve(code: &str) -> (r: Option<String>)
    ensures
        match r {
            Some(l) => resolve_spec(code@) == Some(l@),
            None => resolve_spec(code@) is None,
        },
{
    let t = trimmed(code);
    let code = lowered(t.as_str());
    if code.as_str().unicode_len() == 0 {
        return None;
    }
    if is_shipped(code.as_str()) {
        return Some(code);
    }
    let base = first_field(code.as_str(), '-');
    if is_shipped(base.as_str()) {
        Some(base)
    } else {
        None
    }
}

/// Resolve a client-advertised language code to a locale we ship, falling back
/// to the built-in default.
pub open spec fn or_default_spec(code: Option<Seq<char>>) -> Seq<char> {
    match code {
        Some(c) => match resolve_spec(c) {
            Some(l) => l,
            None => "en"@,
        },
        None => "en"@,
    }
}

pub fn or_default(code: Option<&str>) -> (r: String)
    ensures
        r@ == or_default_spec(
            match code {
                Some(c) => Some(c@),
                None => None,
            },
        ),
{
    match code {
        Some(c) => match resolve(c) {
            Some(l) => l,
            None => String::from_str(fallback()),
        },
        None => String::from_str(fallback()),
    }
}

/// Every request is answered in a locale the catalogs ship, whatever it
/// advertised.
pub proof fn law_always_a_shipped_locale(code: Option<Seq<char>>)
    ensures
        shipped(or_default_spec(code)),
{
}

} // verus!
