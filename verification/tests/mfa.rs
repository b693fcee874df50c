use base64::Engine;
use cognito_user_manager::mfa::{escape, otpauth_uri, software_token, Preference, TotpSetup, SMS, SOFTWARE_TOKEN};

#[test]
fn a_preferred_factor_has_to_be_on() {
    let on = Preference {
        software_token: Some(true),
        preferred: Some(SOFTWARE_TOKEN.to_string()),
        ..Default::default()
    };
    assert!(on.settings().is_ok());

    let off = Preference {
        software_token: Some(false),
        preferred: Some(SOFTWARE_TOKEN.to_string()),
        ..Default::default()
    };
    assert!(off.settings().is_err());

    let unnamed = Preference {
        sms: Some(true),
        preferred: Some(SOFTWARE_TOKEN.to_string()),
        ..Default::default()
    };
    assert!(unnamed.settings().is_err());
}

#[test]
fn an_unnamed_factor_is_left_alone() {
    let preference = Preference {
        sms: Some(true),
        ..Default::default()
    };
    let settings = preference.settings().ok().expect("valid").expect("a factor was named");
    assert!(settings.sms.is_some());
    assert!(settings.software_token.is_none());
    assert!(settings.email.is_none());
}

#[test]
fn a_request_naming_no_factor_sends_nothing() {
    assert!(Preference::default().settings().ok().expect("valid").is_none());
}

#[test]
fn only_the_preferred_factor_is_marked_preferred() {
    let preference = Preference {
        sms: Some(true),
        software_token: Some(true),
        preferred: Some(SMS.to_string()),
        ..Default::default()
    };
    let settings = preference.settings().ok().expect("valid").expect("factors were named");
    let sms = settings.sms.expect("sms named");
    let totp = settings.software_token.expect("totp named");
    assert!(sms.enabled() && sms.preferred_mfa());
    assert!(totp.enabled() && !totp.preferred_mfa());
}

#[test]
fn enrolment_turns_the_authenticator_on_and_prefers_it() {
    let on = software_token(true);
    assert!(on.enabled() && on.preferred_mfa());

    let off = software_token(false);
    assert!(!off.enabled() && !off.preferred_mfa());
}

#[test]
fn a_label_cannot_break_the_uri() {
    let uri = otpauth_uri("ABC234", "Staff Pool", "user@example.com");
    assert_eq!(
        uri,
        "otpauth://totp/Staff%20Pool:user%40example.com?secret=ABC234&issuer=Staff%20Pool"
    );
}

#[test]
fn a_setup_carries_a_scannable_code() {
    let setup = TotpSetup::new("ABC234", "pool", "alice");
    assert!(setup.otpauth_uri.contains("secret=ABC234"));
    let qr = setup.qr_data_uri.expect("short uri should encode");
    assert!(qr.starts_with("data:image/svg+xml;base64,"));
}

#[test]
fn the_code_is_an_svg_document() {
    let setup = TotpSetup::new("ABC234", "pool", "alice");
    let qr = setup.qr_data_uri.expect("short uri should encode");
    let encoded = qr.trim_start_matches("data:image/svg+xml;base64,");
    let svg = base64::engine::general_purpose::STANDARD.decode(encoded).expect("base64");
    let svg = String::from_utf8(svg).expect("utf-8");
    assert!(svg.contains("<svg"), "{svg}");
}

#[test]
fn multibyte_labels_are_escaped_byte_by_byte() {
    let uri = otpauth_uri("S", "ä/b", "x:y");
    assert_eq!(uri, "otpauth://totp/%C3%A4%2Fb:x%3Ay?secret=S&issuer=%C3%A4%2Fb");
}

fn percent_decode(s: &str) -> Vec<u8> {
    let bytes = s.as_bytes();
    let mut out: Vec<u8> = Vec::new();
    let mut i: usize = 0;
    while i < bytes.len() {
        if bytes[i] == b'%' && i + 2 < bytes.len() {
            out.push(u8::from_str_radix(&s[i + 1..i + 3], 16).unwrap());
            i += 3;
        } else {
            out.push(bytes[i]);
            i += 1;
        }
    }
    out
}

#[test]
fn decoding_an_escaped_label_gives_back_its_bytes() {
    for value in ["Acme Corp", "a:b?c&d=e/f", "ユーザー", "50% off~"] {
        let escaped = escape(value);
        assert_eq!(percent_decode(&escaped), value.as_bytes());
    }
    assert_eq!(escape("a b"), "a%20b");
}
