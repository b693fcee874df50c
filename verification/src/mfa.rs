//! Second factors: which ones a user has turned on, and the authenticator-app
//! enrolment that has to happen before one of them can be.
//!
//! The same request shape serves the admin screen and the self-service one;
//! only the Cognito call underneath differs, so the rules about what may be
//! preferred live here rather than in either handler.

use vstd::prelude::*;
use vstd::utf8::encode_utf8;

use crate::codec::{base64_standard, encode_base64};
use crate::error::{entry, says, ApiError, BAD_REQUEST};
use crate::text::{append_str, char_from_ascii, push_char, str_eq};

verus! {

/// Factor names exactly as Cognito reports them in `UserMFASettingList`, which
/// is also how the screens name them back to us.
pub const SMS: &'static str = "SMS_MFA";

pub const SOFTWARE_TOKEN: &'static str = "SOFTWARE_TOKEN_MFA";

pub const EMAIL: &'static str = "EMAIL_OTP";

/// One factor's settings block: on or off, and whether it is the one to
/// challenge with.
#[derive(Debug, Clone, Copy)]
pub struct FactorSetting {
    pub enabled: bool,
    pub preferred: bool,
}

impl FactorSetting {
    pub fn enabled(&self) -> (r: bool)
        ensures
            r == self.enabled,
    {
        self.enabled
    }

    pub fn preferred_mfa(&self) -> (r: bool)
        ensures
            r == self.preferred,
    {
        self.preferred
    }
}

/// The settings blocks one request turns into. A `None` leaves that factor
/// exactly as Cognito already has it.
pub struct Settings {
    pub sms: Option<FactorSetting>,
    pub software_token: Option<FactorSetting>,
    pub email: Option<FactorSetting>,
}

/// Which factors to switch on or off, and which of them to prefer.
///
/// A factor left out is not mentioned in the Cognito call at all, so a pool
/// that has never been given, say, email MFA is not asked about it. That
/// matters: naming an unsupported factor is rejected outright, which would
/// otherwise make the whole form unusable.
#[derive(Debug, Default)]
pub struct Preference {
    pub sms: Option<bool>,
    pub software_token: Option<bool>,
    pub email: Option<bool>,
    /// The factor to challenge with when several are on; `None` leaves Cognito
    /// to ask which one at sign-in.
    pub preferred: Option<String>,
}

/// What the request says of `factor`: on, off, or nothing.
pub open spec fn state_of(p: Preference, factor: Seq<char>) -> Option<bool> {
    if factor == "SMS_MFA"@ {
        p.sms
    } else if factor == "SOFTWARE_TOKEN_MFA"@ {
        p.software_token
    } else if factor == "EMAIL_OTP"@ {
        p.email
    } else {
        None
    }
}

/// The settings block for a factor the request named: on or off as asked, and
/// preferred only when it is on and is the preferred one.
pub open spec fn block_of(p: Preference, factor: Seq<char>) -> Option<FactorSetting> {
    match state_of(p, factor) {
        Some(enabled) => Some(
            FactorSetting {
                enabled,
                preferred: enabled && (p.preferred matches Some(name) && name@ == factor),
            },
        ),
        None => None,
    }
}

/// The request's preference is acceptable: it prefers nothing, or a factor it
/// turns on. Cognito accepts a preferred factor only if that factor is also
/// on, and answers a bare `InvalidParameterException` when it is not.
pub open spec fn preference_valid(p: Preference) -> bool {
    match p.preferred {
        None => true,
        Some(name) => name@.len() == 0 || state_of(p, name@) == Some(true),
    }
}

/// The request names at least one factor.
pub open spec fn names_a_factor(p: Preference) -> bool {
    p.sms is Some || p.software_token is Some || p.email is Some
}

impl Preference {
    fn state(&self, factor: &str) -> (r: Option<bool>)
        ensures
            r == state_of(*self, factor@),
    {
        if str_eq(factor, SMS) {
            self.sms
        } else if str_eq(factor, SOFTWARE_TOKEN) {
            self.software_token
        } else if str_eq(factor, EMAIL) {
            self.email
        } else {
            None
        }
    }

    /// `(enabled, preferred)` for a factor the request named, or `None` to
    /// leave that factor alone.
    fn flags(&self, factor: &str) -> (r: Option<FactorSetting>)
        ensures
            r == block_of(*self, factor@),
    {
        let enabled = match self.state(factor) {
            Some(e) => e,
            None => return None,
        };
        let is_preferred = match &self.preferred {
            Some(name) => str_eq(name.as_str(), factor),
            None => false,
        };
        Some(FactorSetting { enabled, preferred: enabled && is_preferred })
    }

    /// What to send to Cognito, or `None` when the request names no factor and
    /// there is nothing to send.
    ///
    /// The check goes through here rather than being left to each handler, so
    /// a call site cannot send a preference that was never validated.
    pub fn settings(&self) -> (r: Result<Option<Settings>, ApiError>)
        ensures
            !names_a_factor(*self) ==> r matches Ok(None),
            names_a_factor(*self) && !preference_valid(*self) ==> (r matches Err(e) && says(
                e,
                BAD_REQUEST,
                entry("error_mfa_preferred"@),
            )),
            names_a_factor(*self) && preference_valid(*self) ==> (r matches Ok(Some(s)) && s.sms
                == block_of(*self, "SMS_MFA"@) && s.software_token == block_of(
                *self,
                "SOFTWARE_TOKEN_MFA"@,
            ) && s.email == block_of(*self, "EMAIL_OTP"@)),
    {
        if self.sms.is_none() && self.software_token.is_none() && self.email.is_none() {
            return Ok(None);
        }
        self.check()?;
        Ok(
            Some(
                Settings {
                    sms: self.flags(SMS),
                    software_token: self.flags(SOFTWARE_TOKEN),
                    email: self.flags(EMAIL),
                },
            ),
        )
    }

    /// Refuses a preferred factor the request does not turn on, with wording
    /// more specific than Cognito's.
    fn check(&self) -> (r: Result<(), ApiError>)
        ensures
            r is Ok <==> preference_valid(*self),
            r matches Err(e) ==> says(e, BAD_REQUEST, entry("error_mfa_preferred"@)),
    {
        let name = match &self.preferred {
            Some(n) => n,
            None => return Ok(()),
        };
        if name.as_str().unicode_len() == 0 {
            return Ok(());
        }
        match self.state(name.as_str()) {
            Some(true) => Ok(()),
            _ => Err(ApiError::rejected("error_mfa_preferred")),
        }
    }
}

/// The authenticator factor on its own, for the two moments that are not a
/// form submission: enrolment, which turns it on and prefers it, and removal
/// of the registered app, which turns it off. Every other factor is left as
/// it was.
pub fn software_token(enabled: bool) -> (r: FactorSetting)
    ensures
        r.enabled == enabled,
        r.preferred == enabled,
{
    FactorSetting { enabled, preferred: enabled }
}

/// The RFC 3986 unreserved characters, which pass through unescaped.
pub open spec fn unreserved(b: u8) -> bool {
    ||| (65 <= b <= 90)
    ||| (97 <= b <= 122)
    ||| (48 <= b <= 57)
    ||| b == 45
    ||| b == 46
    ||| b == 95
    ||| b == 126
}

pub open spec fn hex_digit(d: u8) -> char {
    if d < 10 {
        ((d + 48) as u32) as char
    } else {
        ((d + 55) as u32) as char
    }
}

/// How one byte of the UTF-8 encoding is written: itself when unreserved,
/// `%XX` in upper-case hex otherwise.
pub open spec fn escaped_byte(b: u8) -> Seq<char> {
    if unreserved(b) {
        seq![(b as u32) as char]
    } else {
        seq!['%', hex_digit(b / 16), hex_digit(b % 16)]
    }
}

pub open spec fn escape_bytes(bytes: Seq<u8>) -> Seq<char>
    decreases bytes.len(),
{
    if bytes.len() == 0 {
        Seq::empty()
    } else {
        escape_bytes(bytes.drop_last()) + escaped_byte(bytes.last())
    }
}

/// Everything outside the unreserved set of RFC 3986, escaped byte by byte.
pub open spec fn escape_spec(value: Seq<char>) -> Seq<char> {
    escape_bytes(encode_utf8(value))
}

fn hex_of(d: u8) -> (r: char)
    requires
        d < 16,
    ensures
        r == hex_digit(d),
{
    if d < 10 {
        char_from_ascii(d + 48)
    } else {
        char_from_ascii(d + 55)
    }
}

/// Everything outside the unreserved set of RFC 3986 is escaped, which is
/// stricter than a URI needs but is what every authenticator app expects of a
/// label that may hold an email address or a pool name with spaces in it.
pub fn escape(value: &str) -> (r: String)
    ensures
        r@ == escape_spec(value@),
{
    let bytes = value.as_bytes();
    let mut out = String::new();
    let mut i: usize = 0;
    while i < bytes.len()
        invariant
            bytes@ == encode_utf8(value@),
            i <= bytes@.len(),
            out@ == escape_bytes(bytes@.subrange(0, i as int)),
        decreases bytes@.len() - i,
    {
        let b = bytes[i];
        proof {
            assert(bytes@.subrange(0, i + 1).drop_last() =~= bytes@.subrange(0, i as int));
        }
        if (65 <= b && b <= 90) || (97 <= b && b <= 122) || (48 <= b && b <= 57) || b == 45 || b
            == 46 || b == 95 || b == 126 {
            push_char(&mut out, char_from_ascii(b));
        } else {
            push_char(&mut out, '%');
            push_char(&mut out, hex_of(b / 16));
            push_char(&mut out, hex_of(b % 16));
        }
        i = i + 1;
    }
    assert(bytes@.subrange(0, bytes@.len() as int) =~= bytes@);
    out
}

/// The URI an authenticator app reads, per the Key Uri Format.
pub open spec fn otpauth_spec(secret: Seq<char>, issuer: Seq<char>, account: Seq<char>) -> Seq<char> {
    "otpauth://totp/"@ + escape_spec(issuer) + ":"@ + escape_spec(account) + "?secret="@
        + escape_spec(secret) + "&issuer="@ + escape_spec(issuer)
}

/// The URI an authenticator app reads, per the Key Uri Format:
/// <https://github.com/google/google-authenticator/wiki/Key-Uri-Format>
pub fn otpauth_uri(secret: &str, issuer: &str, account: &str) -> (r: String)
    ensures
        r@ == otpauth_spec(secret@, issuer@, account@),
{
    let mut uri = String::from_str("otpauth://totp/");
    let escaped_issuer = escape(issuer);
    append_str(&mut uri, escaped_issuer.as_str());
    append_str(&mut uri, ":");
    append_str(&mut uri, escape(account).as_str());
    append_str(&mut uri, "?secret=");
    append_str(&mut uri, escape(secret).as_str());
    append_str(&mut uri, "&issuer=");
    append_str(&mut uri, escaped_issuer.as_str());
    uri
}

/// The QR code for `uri`, rendered as SVG at least 220 pixels square with its
/// quiet zone, or `None` when the URI is too long to encode.
pub uninterp spec fn qr_svg_of(uri: Seq<char>) -> Option<Seq<char>>;

/// `qrcode::QrCode::new(uri)`, rendered with `render::<svg::Color>()`,
/// `min_dimensions(220, 220)` and `quiet_zone(true)`; an encoding error
/// (data too long) reads as `None`.
#[verifier::external_body]
fn qr_svg(uri: &str) -> (r: Option<String>)
    ensures
        match r {
            Some(svg) => qr_svg_of(uri@) == Some(svg@),
            None => qr_svg_of(uri@) is None,
        },
{
    let code = qrcode::QrCode::new(uri).ok()?;
    Some(
        code.render::<qrcode::render::svg::Color>().min_dimensions(220, 220).quiet_zone(
            true,
        ).build(),
    )
}

/// What the authenticator app needs to enrol: the shared secret, the URI that
/// carries it, and the same URI as a QR code ready to put in an `<img>`.
pub struct TotpSetup {
    pub secret_code: String,
    pub otpauth_uri: String,
    pub qr_data_uri: Option<String>,
}

/// The `data:` URI an `<img>` shows an SVG document from.
pub open spec fn svg_data_uri(svg: Seq<char>) -> Seq<char> {
    "data:image/svg+xml;base64,"@ + base64_standard(encode_utf8(svg))
}

impl TotpSetup {
    pub fn new(secret: &str, issuer: &str, account: &str) -> (r: TotpSetup)
        ensures
            r.secret_code@ == secret@,
            r.otpauth_uri@ == otpauth_spec(secret@, issuer@, account@),
            match qr_svg_of(r.otpauth_uri@) {
                Some(svg) => r.qr_data_uri matches Some(d) && d@ == svg_data_uri(svg),
                None => r.qr_data_uri is None,
            },
    {
        let uri = otpauth_uri(secret, issuer, account);
        let qr_data_uri = match qr_svg(uri.as_str()) {
            Some(svg) => {
                let mut data = String::from_str("data:image/svg+xml;base64,");
                append_str(&mut data, encode_base64(svg.as_str().as_bytes()).as_str());
                Some(data)
            },
            None => None,
        };
        TotpSetup { secret_code: String::from_str(secret), otpauth_uri: uri, qr_data_uri }
    }
}

/// Only one factor can be the preferred one, and only a factor the request
/// turns on.
pub proof fn law_one_preferred_factor(p: Preference, a: Seq<char>, b: Seq<char>)
    requires
        a != b,
    ensures
        !((block_of(p, a) matches Some(x) && x.preferred) && (block_of(p, b) matches Some(y)
            && y.preferred)),
        block_of(p, a) matches Some(x) ==> (x.preferred ==> x.enabled),
{
}

/// A character a URI carries as itself inside a label: an unreserved one, or
/// part of a `%XX` escape.
pub open spec fn uri_safe(c: char) -> bool {
    ||| ('A' <= c && c <= 'Z')
    ||| ('a' <= c && c <= 'z')
    ||| ('0' <= c && c <= '9')
    ||| c == '-'
    ||| c == '.'
    ||| c == '_'
    ||| c == '~'
    ||| c == '%'
}

proof fn lemma_escape_bytes_safe(bytes: Seq<u8>)
    ensures
        forall|i: int| 0 <= i < escape_bytes(bytes).len() ==> uri_safe(#[trigger] escape_bytes(bytes)[i]),
    decreases bytes.len(),
{
    if bytes.len() > 0 {
        lemma_escape_bytes_safe(bytes.drop_last());
        let b = bytes.last();
        let head = escape_bytes(bytes.drop_last());
        let tail = escaped_byte(b);
        assert(b / 16 < 16 && b % 16 < 16);
        assert forall|i: int| 0 <= i < tail.len() implies uri_safe(#[trigger] tail[i]) by {
            if !unreserved(b) && i > 0 {
                let d: u8 = if i == 1 { (b / 16) as u8 } else { (b % 16) as u8 };
                assert(tail[i] == hex_digit(d));
            }
        }
        assert forall|i: int| 0 <= i < escape_bytes(bytes).len() implies uri_safe(
            #[trigger] escape_bytes(bytes)[i],
        ) by {
            if i < head.len() {
                assert(escape_bytes(bytes)[i] == head[i]);
            } else {
                assert(escape_bytes(bytes)[i] == tail[i - head.len()]);
            }
        }
    }
}

/// A label cannot break the URI: whatever the issuer or account name holds,
/// its escaped form has no `:`, `?`, `&`, `/`, `=` or space, only unreserved
/// characters and `%` escapes.
pub proof fn law_escaped_label_is_uri_safe(value: Seq<char>)
    ensures
        forall|i: int| 0 <= i < escape_spec(value).len() ==> uri_safe(#[trigger] escape_spec(value)[i]),
{
    lemma_escape_bytes_safe(encode_utf8(value));
}

/// The value of a hex digit as `hex_digit` writes it.
pub open spec fn hex_value(c: char) -> int {
    if c <= '9' {
        (c as u32) - 48
    } else {
        (c as u32) - 55
    }
}

/// Percent-decoding: each `%XX` is the byte `XX`, every other character the
/// byte of its code.
pub open spec fn unescape(s: Seq<char>) -> Seq<u8>
    decreases s.len(),
{
    if s.len() == 0 {
        Seq::empty()
    } else if s[0] == '%' && s.len() >= 3 {
        seq![(hex_value(s[1]) * 16 + hex_value(s[2])) as u8] + unescape(s.subrange(3, s.len() as int))
    } else {
        seq![(s[0] as u32) as u8] + unescape(s.drop_first())
    }
}

proof fn lemma_unescape_byte(b: u8, t: Seq<char>)
    ensures
        unescape(escaped_byte(b) + t) == seq![b] + unescape(t),
{
    let e = escaped_byte(b);
    let s = e + t;
    if unreserved(b) {
        assert(s[0] == (b as u32) as char);
        assert(s[0] != '%');
        assert(s.drop_first() =~= t);
    } else {
        let hi: u8 = b / 16;
        let lo: u8 = b % 16;
        assert(s[0] == '%');
        assert(s[1] == hex_digit(hi));
        assert(s[2] == hex_digit(lo));
        assert(hex_value(hex_digit(hi)) == hi);
        assert(hex_value(hex_digit(lo)) == lo);
        assert(hi * 16 + lo == b);
        assert(s.subrange(3, s.len() as int) =~= t);
    }
}

proof fn lemma_unescape_bytes(bytes: Seq<u8>, t: Seq<char>)
    ensures
        unescape(escape_bytes(bytes) + t) == bytes + unescape(t),
    decreases bytes.len(),
{
    if bytes.len() == 0 {
        assert(escape_bytes(bytes) + t =~= t);
        assert(bytes + unescape(t) =~= unescape(t));
    } else {
        let init = bytes.drop_last();
        let last = bytes.last();
        lemma_unescape_byte(last, t);
        lemma_unescape_bytes(init, escaped_byte(last) + t);
        assert(escape_bytes(bytes) + t =~= escape_bytes(init) + (escaped_byte(last) + t));
        assert(init + (seq![last] + unescape(t)) =~= bytes + unescape(t));
    }
}

/// Escaping loses nothing: percent-decoding an escaped label gives back the
/// UTF-8 bytes of the value.
pub proof fn law_unescape_undoes_escape(value: Seq<char>)
    ensures
        unescape(escape_spec(value)) == encode_utf8(value),
{
    lemma_unescape_bytes(encode_utf8(value), Seq::empty());
    assert(escape_spec(value) + Seq::<char>::empty() =~= escape_spec(value));
    assert(encode_utf8(value) + Seq::<u8>::empty() =~= encode_utf8(value));
}

} // verus!
