use zero2prod::basic_auth::{basic_authentication, strip_prefix_case_insensitive, BasicAuthError};
use zero2prod::password::{check_credentials, verify_password_hash, AuthError};

#[test]
fn basic_authentication_valid_case() {
    let headers_cases = vec!["Basic QWxhZGRpbjpPcGVuU2VzYW1l", " Basic QWxhZGRpbjpPcGVuU2VzYW1l"];
    for header in headers_cases {
        let credentials = basic_authentication(Some(header)).ok().unwrap();
        assert_eq!(credentials.username, "Aladdin");
        assert_eq!(credentials.password, "OpenSesame");
    }
}

#[test]
fn basic_prefix_remove_case_insensitively() {
    let s = "Basic QWxhZGRpbjpPcGVuU2VzYW1l";
    assert_eq!(strip_prefix_case_insensitive(s, "Basic "), Some("QWxhZGRpbjpPcGVuU2VzYW1l"));
    assert_eq!(strip_prefix_case_insensitive(s, "BASIC "), Some("QWxhZGRpbjpPcGVuU2VzYW1l"));
    assert_eq!(strip_prefix_case_insensitive(s, "basic "), Some("QWxhZGRpbjpPcGVuU2VzYW1l"));
    assert_eq!(strip_prefix_case_insensitive(s, "baSic "), Some("QWxhZGRpbjpPcGVuU2VzYW1l"));
    assert_eq!(strip_prefix_case_insensitive(s, "Bearer "), None);
}

#[test]
fn short_header_has_no_prefix() {
    assert_eq!(strip_prefix_case_insensitive("  Bas", "Basic "), None);
    assert_eq!(strip_prefix_case_insensitive("\tbasic ", "Basic "), Some(""));
}

#[test]
fn basic_authentication_errors() {
    assert_eq!(basic_authentication(None).err(), Some(BasicAuthError::MissingHeader));
    assert_eq!(
        basic_authentication(Some("Bearer QWxhZGRpbjpPcGVuU2VzYW1l")).err(),
        Some(BasicAuthError::NotBasic)
    );
    assert_eq!(basic_authentication(Some("Basic ***")).err(), Some(BasicAuthError::InvalidBase64));
    // "/w==" is the single byte 0xff, which is not UTF-8.
    assert_eq!(basic_authentication(Some("Basic /w==")).err(), Some(BasicAuthError::NotUtf8));
    // "QWxhZGRpbg==" is "Aladdin", with no colon.
    assert_eq!(
        basic_authentication(Some("Basic QWxhZGRpbg==")).err(),
        Some(BasicAuthError::MissingPassword)
    );
}

#[test]
fn password_may_hold_colons() {
    // "dTpwOnc=" is "u:p:w".
    let c = basic_authentication(Some("Basic dTpwOnc=")).ok().unwrap();
    assert_eq!(c.username, "u");
    assert_eq!(c.password, "p:w");
}

const OTHER_PASSWORD_HASH: &str = "$argon2id$v=19$m=15000,t=2,p=1$OEx/rcq+3ts//WUDzGNl2g$Am8UFBA4w5NJEmAtquGvBmAlu92q/VQcaoL5AyJPfc8";

#[test]
fn malformed_hash_is_an_unexpected_error() {
    assert_eq!(verify_password_hash("not a hash", "whatever").err(), Some(AuthError::UnexpectedError));
}

#[test]
fn wrong_password_is_refused() {
    assert_eq!(
        verify_password_hash(OTHER_PASSWORD_HASH, "definitely wrong").err(),
        Some(AuthError::InvalidCredentials)
    );
    assert_eq!(
        check_credentials(Some((7, OTHER_PASSWORD_HASH.to_string())), "definitely wrong").err(),
        Some(AuthError::InvalidCredentials)
    );
}

#[test]
fn unknown_user_is_refused() {
    assert_eq!(check_credentials(None, "whatever password").err(), Some(AuthError::InvalidCredentials));
}
