//! Read models of users, the search field allowlist and filter escaping.

use vstd::prelude::*;

use crate::attributes::Values;
use crate::error::{answers, entry, says, ApiError, Failure, Text, NOT_FOUND};
use crate::text::{append_str, chars_of, push_char, str_eq, trim, trimmed};

verus! {

#[derive(Debug)]
pub struct UserSummary {
    pub username: String,
    pub enabled: bool,
    pub status: Option<String>,
    pub created_at: Option<String>,
    pub attributes: Values,
}

#[derive(Debug)]
pub struct UserDetail {
    pub username: String,
    pub enabled: bool,
    pub status: Option<String>,
    pub created_at: Option<String>,
    pub updated_at: Option<String>,
    pub attributes: Values,
    pub groups: Vec<String>,
    pub mfa: Vec<String>,
    pub preferred_mfa: Option<String>,
}

#[derive(Debug)]
pub struct MyProfile {
    pub username: String,
    pub attributes: Values,
    pub mfa: Vec<String>,
    pub preferred_mfa: Option<String>,
    pub groups: Vec<String>,
}

#[derive(Debug)]
pub struct UserPage {
    pub users: Vec<UserSummary>,
    pub next_token: Option<String>,
}

/// Attributes the ListUsers Filter accepts. Custom attributes are not
/// searchable, and an unknown field would make Cognito reject the request.
pub open spec fn search_fields_spec() -> Seq<Seq<char>> {
    seq![
        "email"@,
        "username"@,
        "name"@,
        "given_name"@,
        "family_name"@,
        "preferred_username"@,
        "phone_number"@,
        "sub"@,
        "cognito:user_status"@,
    ]
}

pub fn search_fields() -> (r: Vec<&'static str>)
    ensures
        r@.map_values(|s: &'static str| s@) == search_fields_spec(),
{
    let r = vec![
        "email",
        "username",
        "name",
        "given_name",
        "family_name",
        "preferred_username",
        "phone_number",
        "sub",
        "cognito:user_status",
    ];
    assert(r@.map_values(|s: &'static str| s@) =~= search_fields_spec());
    r
}

/// Resolves a client-supplied field name to one of the search fields, the
/// first (`email`) when it names none. Returning `&'static str` is what keeps
/// an arbitrary string out of the filter below.
#[verifier::loop_isolation(false)]
pub fn search_field(requested: Option<&str>) -> (r: &'static str)
    ensures
        search_fields_spec().contains(r@),
        (requested matches Some(name) && search_fields_spec().contains(name@)) ==> r@ == requested->0@,
        !(requested matches Some(name) && search_fields_spec().contains(name@)) ==> r@ == "email"@,
{
    let fields = search_fields();
    let ghost spec = search_fields_spec();
    assert(spec[0] == "email"@);
    match requested {
        Some(name) => {
            let mut i: usize = 0;
            while i < fields.len()
                invariant
                    fields@.map_values(|s: &'static str| s@) == spec,
                    i <= fields@.len(),
                    forall|j: int| 0 <= j < i ==> #[trigger] spec[j] != name@,
                decreases fields@.len() - i,
            {
                assert(spec[i as int] == fields@[i as int]@);
                if str_eq(fields[i], name) {
                    assert(spec.contains(spec[i as int]));
                    return fields[i];
                }
                i = i + 1;
            }
            assert(!spec.contains(name@));
        },
        None => {},
    }
    assert(spec[0] == fields@[0]@);
    assert(spec.contains(spec[0]));
    fields[0]
}

/// How one character of a filter value is written: `\` and `"` escaped with
/// a backslash.
pub open spec fn escaped_char(c: char) -> Seq<char> {
    if c == '\\' {
        seq!['\\', '\\']
    } else if c == '"' {
        seq!['\\', '"']
    } else {
        seq![c]
    }
}

pub open spec fn escape_spec(s: Seq<char>) -> Seq<char>
    decreases s.len(),
{
    if s.len() == 0 {
        Seq::empty()
    } else {
        escape_spec(s.drop_last()) + escaped_char(s.last())
    }
}

/// A filter value is a double-quoted string in which `\` and `"` are escaped.
/// The backslash has to be escaped first, or the one added for a quote would
/// itself be doubled.
pub fn escape(value: &str) -> (r: String)
    ensures
        r@ == escape_spec(value@),
{
    let cs = chars_of(value);
    let mut out = String::new();
    let mut i: usize = 0;
    while i < cs.len()
        invariant
            cs@ == value@,
            i <= cs@.len(),
            out@ == escape_spec(cs@.subrange(0, i as int)),
        decreases cs@.len() - i,
    {
        let c = cs[i];
        proof {
            assert(cs@.subrange(0, i + 1).drop_last() =~= cs@.subrange(0, i as int));
        }
        if c == '\\' {
            push_char(&mut out, '\\');
            push_char(&mut out, '\\');
        } else if c == '"' {
            push_char(&mut out, '\\');
            push_char(&mut out, '"');
        } else {
            push_char(&mut out, c);
        }
        i = i + 1;
    }
    assert(cs@.subrange(0, cs@.len() as int) =~= cs@);
    out
}

/// The ListUsers filter for a search: a prefix match of the escaped, trimmed
/// term on `field`, or none for a blank term.
pub open spec fn filter_spec(search: Seq<char>, field: Seq<char>) -> Option<Seq<char>> {
    if trim(search).len() == 0 {
        None
    } else {
        Some(field + " ^= \""@ + escape_spec(trim(search)) + "\""@)
    }
}

/// ListUsers only supports prefix matching on a fixed set of attributes, so
/// the search term is applied as a prefix filter on the chosen field.
pub fn user_filter(search: &str, field: &'static str) -> (r: Option<String>)
    ensures
        match r {
            Some(f) => filter_spec(search@, field@) == Some(f@),
            None => filter_spec(search@, field@) is None,
        },
{
    let term = trimmed(search);
    if term.as_str().unicode_len() == 0 {
        return None;
    }
    let mut filter = String::from_str(field);
    append_str(&mut filter, " ^= \"");
    append_str(&mut filter, escape(term.as_str()).as_str());
    append_str(&mut filter, "\"");
    Some(filter)
}

/// The next-page token to send: an empty one counts as none, which is how a
/// client asks for the first page.
pub fn page_token(token: Option<String>) -> (r: Option<String>)
    ensures
        r == match token {
            Some(t) => if t@.len() == 0 {
                None
            } else {
                Some(t)
            },
            None => None,
        },
{
    match token {
        Some(t) => if t.as_str().unicode_len() == 0 {
            None
        } else {
            Some(t)
        },
        None => None,
    }
}

/// What AdminGetUser's answer means: the user, `None` when there is no such
/// user, or the error.
pub fn looked_up<T>(answer: Result<T, Failure>) -> (r: Result<Option<T>, ApiError>)
    ensures
        match answer {
            Ok(u) => r == Ok::<Option<T>, ApiError>(Some(u)),
            Err(f) => if f.code matches Some(c) && c@ == "UserNotFoundException"@ {
                r == Ok::<Option<T>, ApiError>(None)
            } else {
                r matches Err(e) && answers(e, f)
            },
        },
{
    match answer {
        Ok(u) => Ok(Some(u)),
        Err(f) => if f.has_code("UserNotFoundException") {
            Ok(None)
        } else {
            Err(f.answer())
        },
    }
}

/// The user, for the screens that have nothing to do without one.
pub fn require(found: Option<UserDetail>) -> (r: Result<UserDetail, ApiError>)
    ensures
        match found {
            Some(u) => r == Ok::<UserDetail, ApiError>(u),
            None => r matches Err(e) && says(e, NOT_FOUND, entry("error_user_not_found"@)),
        },
{
    match found {
        Some(u) => Ok(u),
        None => Err(ApiError::not_found(Text::key("error_user_not_found"))),
    }
}

/// Reads the body of a double-quoted filter value back: `\` takes the next
/// character as it is, and a bare `"` would end the value early. `None` when
/// `t` is not a complete body (a bare quote, or a trailing lone backslash).
pub open spec fn read_quoted(t: Seq<char>) -> Option<Seq<char>>
    decreases t.len(),
{
    if t.len() == 0 {
        Some(Seq::empty())
    } else if t[0] == '"' {
        None
    } else if t[0] == '\\' {
        if t.len() < 2 {
            None
        } else {
            match read_quoted(t.subrange(2, t.len() as int)) {
                Some(rest) => Some(seq![t[1]] + rest),
                None => None,
            }
        }
    } else {
        match read_quoted(t.drop_first()) {
            Some(rest) => Some(seq![t[0]] + rest),
            None => None,
        }
    }
}

proof fn lemma_escape_front(c: char, s: Seq<char>)
    ensures
        escape_spec(seq![c] + s) == escaped_char(c) + escape_spec(s),
    decreases s.len(),
{
    if s.len() == 0 {
        assert((seq![c] + s).drop_last() =~= Seq::<char>::empty());
        assert(seq![c] + s =~= seq![c]);
        assert(escape_spec(Seq::<char>::empty()) =~= Seq::<char>::empty());
        assert(escaped_char(c) + escape_spec(s) =~= escaped_char(c));
    } else {
        assert((seq![c] + s).drop_last() =~= seq![c] + s.drop_last());
        assert((seq![c] + s).last() == s.last());
        lemma_escape_front(c, s.drop_last());
        assert(escaped_char(c) + escape_spec(s.drop_last()) + escaped_char(s.last()) =~= escaped_char(c)
            + (escape_spec(s.drop_last()) + escaped_char(s.last())));
    }
}

/// A search term cannot break out of the quoted value: whatever it holds,
/// its escaped form reads back as exactly the term, with no bare quote to
/// end the value early and no lone backslash to swallow the closing one.
pub proof fn law_escaped_term_reads_back(s: Seq<char>)
    ensures
        read_quoted(escape_spec(s)) == Some(s),
    decreases s.len(),
{
    if s.len() == 0 {
        assert(escape_spec(s) =~= Seq::<char>::empty());
    } else {
        let c = s[0];
        let rest = s.drop_first();
        assert(s =~= seq![c] + rest);
        lemma_escape_front(c, rest);
        law_escaped_term_reads_back(rest);
        let t = escaped_char(c) + escape_spec(rest);
        if c == '\\' || c == '"' {
            assert(t.subrange(2, t.len() as int) =~= escape_spec(rest));
            assert(t[1] == c);
        } else {
            assert(t.drop_first() =~= escape_spec(rest));
            assert(t[0] == c);
        }
        assert(seq![c] + rest =~= s);
    }
}

} // verus!
