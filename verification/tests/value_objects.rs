use knotes_core::value_objects::{Email, Password, ValidationError};

#[test]
fn test_valid_email() {
    assert!(Email::new("user@example.com").is_ok());
    assert!(Email::new("USER@EXAMPLE.COM").is_ok());
    assert!(Email::new("  user@example.com  ").is_ok());
}

#[test]
fn test_email_normalizes() {
    let email = Email::new("  USER@EXAMPLE.COM  ").unwrap();
    assert_eq!(email.as_str(), "user@example.com");
}

#[test]
fn test_invalid_email_no_at() {
    assert!(Email::new("userexample.com").is_err());
}

#[test]
fn test_invalid_email_no_domain() {
    assert!(Email::new("user@").is_err());
}

#[test]
fn test_invalid_email_no_local() {
    assert!(Email::new("@example.com").is_err());
}

#[test]
fn test_invalid_email_no_dot_in_domain() {
    assert!(Email::new("user@localhost").is_err());
}

#[test]
fn test_valid_password() {
    assert!(Password::new("secret123").is_ok());
    assert!(Password::new("123456").is_ok());
}

#[test]
fn test_password_too_short() {
    assert!(Password::new("12345").is_err());
    assert!(Password::new("").is_err());
}

#[test]
fn test_password_debug_hides_content() {
    let password = Password::new("supersecret").unwrap();
    let debug = password.debug_repr();
    assert!(!debug.contains("supersecret"));
    assert!(debug.contains("***"));
}

#[test]
fn email_error_carries_raw_input() {
    match Email::new("  bad input  ") {
        Err(ValidationError::InvalidEmail(raw)) => assert_eq!(raw, "  bad input  "),
        _ => panic!("expected an invalid-email error"),
    }
}

#[test]
fn password_error_reports_bound_and_length() {
    match Password::new("12345") {
        Err(ValidationError::PasswordTooShort { min, actual }) => {
            assert_eq!(min, 6);
            assert_eq!(actual, 5);
        },
        _ => panic!("expected a too-short error"),
    }
}

#[test]
fn validation_error_messages() {
    let e = match Password::new("12345") {
        Err(e) => e,
        Ok(_) => panic!("expected an error"),
    };
    assert_eq!(e.message(), "Password must be at least 6 characters, got 5");
    let e = Email::new("nope").unwrap_err();
    assert_eq!(e.message(), "Invalid email format: nope");
}

#[test]
fn password_round_trip() {
    let p = Password::new("secret123").unwrap();
    assert_eq!(p.as_str(), "secret123");
    assert_eq!(p.into_inner(), "secret123");
}

#[test]
fn email_into_inner_is_normalized() {
    let e = Email::new(" A@B.Co ").unwrap();
    assert_eq!(e.into_inner(), "a@b.co");
}
