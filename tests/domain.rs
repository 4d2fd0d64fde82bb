use zero2prod::password::{Password, PasswordError, ValidPasswords};
use zero2prod::subscriber_email::SubscriberEmail;
use zero2prod::subscriber_name::SubscriberName;
use zero2prod::subscriptions::{FormData, NewSubscriber};

fn valid_names() -> Vec<&'static str> {
    vec!["Ursula Le Guin", "Brian May", "山田太郎"]
}

#[test]
fn valid_names_are_parsed_successfully() {
    for valid_name in valid_names() {
        let name = SubscriberName::parse(valid_name.to_string());
        assert!(name.is_ok());
    }
}

#[test]
fn a_256_grapheme_name_is_valid() {
    let name = "あ".repeat(256);
    let name = SubscriberName::parse(name);
    assert!(name.is_ok());
}

#[test]
fn a_name_longer_than_256_is_rejected() {
    let name = "あ".repeat(257);
    let sut = SubscriberName::parse(name);
    assert!(sut.is_err());
}

#[test]
fn subscriber_name_empty_string_is_rejected() {
    let name = "".to_string();
    assert!(SubscriberName::parse(name).is_err());
}

#[test]
fn white_space_only_string_is_rejected() {
    let name = " ".repeat(8);
    assert!(SubscriberName::parse(name).is_err());
}

#[test]
fn name_containing_forbidden_characters_is_rejected() {
    let invalid_strings = vec!["/", "(", ")", "\"", "<", ">", "\\", "{", "}"];
    for invalid_string in invalid_strings {
        let name = format!("Brian{}Blade", invalid_string);
        assert!(SubscriberName::parse(name).is_err());
    }
}

#[test]
fn name_error_says_which_name() {
    let err = SubscriberName::parse("a<b".to_string()).err().unwrap();
    assert_eq!(err, "a<b is not a valid subscriber name.");
}

#[test]
fn name_with_unicode_white_space_only_is_rejected() {
    assert!(SubscriberName::parse("\u{3000}\t\u{a0}".to_string()).is_err());
    assert!(SubscriberName::parse(" x ".to_string()).is_ok());
}

#[test]
fn subscriber_email_empty_string_is_rejected() {
    let email = "".to_string();
    assert!(SubscriberEmail::parse(email).is_err());
}

#[test]
fn email_missing_at_symbol_is_rejected() {
    let email = "ursulaexample.com".to_string();
    assert!(SubscriberEmail::parse(email).is_err());
}

#[test]
fn email_missing_subject_is_rejected() {
    let email = "@example.com".to_string();
    assert!(SubscriberEmail::parse(email).is_err());
}

#[test]
fn valid_email_is_kept_as_given() {
    let email = SubscriberEmail::parse("ursula_le_guin@gmail.com".to_string()).unwrap();
    assert_eq!(email.as_str(), "ursula_le_guin@gmail.com");
    assert_eq!(email.to_string(), "ursula_le_guin@gmail.com");
}

#[test]
fn refused_email_is_handed_back() {
    assert_eq!(
        SubscriberEmail::parse("definitely-not-an-email".to_string()).err().unwrap(),
        "definitely-not-an-email"
    );
}

#[test]
fn new_subscriber_checks_name_before_email() {
    let both_bad = NewSubscriber::parse(FormData { email: "nope".to_string(), name: "".to_string() });
    assert_eq!(both_bad.err().unwrap(), " is not a valid subscriber name.");
    let bad_email =
        NewSubscriber::parse(FormData { email: "nope".to_string(), name: "le guin".to_string() });
    assert_eq!(bad_email.err().unwrap(), "nope");
    let ok = NewSubscriber::parse(FormData {
        email: "ursula_le_guin@gmail.com".to_string(),
        name: "le guin".to_string(),
    })
    .ok()
    .unwrap();
    assert_eq!(ok.name.as_str(), "le guin");
    assert_eq!(ok.email.as_str(), "ursula_le_guin@gmail.com");
}

#[test]
fn password_length_is_counted_in_graphemes() {
    assert_eq!(Password::parse("short".to_string()).err(), Some(PasswordError::TooShort));
    assert_eq!(Password::parse("x".repeat(129)).err(), Some(PasswordError::TooLong));
    assert!(Password::parse("x".repeat(12)).is_ok());
    assert!(Password::parse("x".repeat(128)).is_ok());
    assert!(Password::parse("あ".repeat(11)).is_err());
    let p = Password::parse("correct horse battery".to_string()).ok().unwrap();
    assert_eq!(p.expose_secret(), "correct horse battery");
}

#[test]
fn change_password_form_is_checked() {
    let form = ValidPasswords::parse(
        "old password 123".to_string(),
        "new password 123".to_string(),
        "new password 124".to_string(),
    )
    .ok()
    .unwrap();
    assert!(!form.new_passwords_match());
    let form = ValidPasswords::parse(
        "old password 123".to_string(),
        "new password 123".to_string(),
        "new password 123".to_string(),
    )
    .ok()
    .unwrap();
    assert!(form.new_passwords_match());
    assert!(ValidPasswords::parse(
        "short".to_string(),
        "new password 123".to_string(),
        "new password 123".to_string()
    )
    .is_err());
}
