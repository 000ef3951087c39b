use zero2prod::domain::NameValidationError;
use zero2prod::domain::SubscriberEmail;
use zero2prod::domain::SubscriberName;
use zero2prod::domain::FORBIDDEN_CHARS;

#[test]
fn emtpy_email_is_rejected() {
    let email = "".to_string();
    assert!(SubscriberEmail::parse(email).is_err())
}

#[test]
fn email_without_at_is_rejected() {
    let email = "testmail.rs".to_string();
    assert!(SubscriberEmail::parse(email).is_err())
}

#[test]
fn email_without_subject_is_rejected() {
    let email = "@pythonruste.rs".to_string();
    assert!(SubscriberEmail::parse(email).is_err())
}

#[test]
fn a_256_grapheme_name_is_valid() {
    let name = "a".repeat(256);
    assert!(SubscriberName::parse(name).is_ok())
}

#[test]
fn long_name_is_invalid() {
    let name = "a".repeat(257);
    assert!(SubscriberName::parse(name).is_err_and(|x| matches!(x, NameValidationError::TooLong)))
}

#[test]
fn whitespace_name_is_invalid() {
    let name = " ".to_string();
    assert!(SubscriberName::parse(name).is_err_and(|x| matches!(x, NameValidationError::Empty)))
}

#[test]
fn empty_name_is_invalid() {
    let name = "".to_string();
    assert!(SubscriberName::parse(name).is_err_and(|x| matches!(x, NameValidationError::Empty)))
}

#[test]
fn name_with_invalid_chars_is_rejected() {
    for name in FORBIDDEN_CHARS {
        assert!(SubscriberName::parse(name.to_string())
            .is_err_and(|x| matches!(x, NameValidationError::ForbiddenCharacter)))
    }
}

#[test]
fn valid_name_is_parsed() {
    let name = "Poppy Bowling".to_string();
    assert!(SubscriberName::parse(name).is_ok())
}
