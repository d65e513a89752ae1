use authcore::hashing::{hash_password, verify_password};
use authcore::text::{contains_ascii_letter, int_text, is_email_shaped, parse_i32, same_text};
use authcore::validation::{password_verdict, AuthError, ChangePassword, UserRegister};

fn change(p1: &str, p2: &str) -> ChangePassword {
    ChangePassword { token: String::new(), password1: p1.to_string(), password2: p2.to_string() }
}

#[test]
fn password_length_five_with_letter_and_digit_passes() {
    assert_eq!(change("abcd1", "abcd1").validate(), Ok(()));
    assert_eq!(change("1bcde", "1bcde").validate(), Ok(()));
}

#[test]
fn password_length_four_is_too_short() {
    let e = change("ab1c", "ab1c").validate().err().unwrap();
    assert_eq!(e, AuthError::PasswordTooShort);
    assert_eq!(e.code(), "password_too_short");
    assert_eq!(e.message(), "Password is too short");
}

#[test]
fn password_without_digit_or_letter_is_too_weak() {
    assert_eq!(change("abcdef", "abcdef").validate(), Err(AuthError::PasswordTooWeak));
    assert_eq!(change("123456", "123456").validate(), Err(AuthError::PasswordTooWeak));
    assert_eq!(change("abcde", "abcde").validate(), Err(AuthError::PasswordTooWeak));
    assert_eq!(AuthError::PasswordTooWeak.code(), "password_too_weak");
}

#[test]
fn password_digit_check_accepts_unicode_digits() {
    assert_eq!(change("abcd\u{0663}", "abcd\u{0663}").validate(), Ok(()));
}

#[test]
fn password_mismatch_checked_first() {
    assert_eq!(change("ab", "abc").validate(), Err(AuthError::PasswordsDoNotMatch));
}

#[test]
fn password_length_counts_bytes() {
    assert_eq!(change("\u{e9}1ab", "\u{e9}1ab").validate(), Ok(()));
    assert_eq!(change("\u{e9}a1", "\u{e9}a1").validate(), Err(AuthError::PasswordTooShort));
}

#[test]
fn registration_order_of_checks() {
    let u = UserRegister {
        username: "ab".to_string(),
        email: "a@b.com".to_string(),
        password1: "pass12".to_string(),
        password2: "pass12".to_string(),
    };
    assert_eq!(u.validate(true, true), Err(AuthError::EmailAlreadyExists));
    assert_eq!(u.validate(false, true), Err(AuthError::UsernameTooShort));
    let v = UserRegister { username: "abc".to_string(), ..u };
    assert_eq!(v.validate(false, true), Err(AuthError::UsernameAlreadyExists));
    assert_eq!(v.validate(false, false), Ok(()));
    let w = UserRegister { password2: "pass13".to_string(), ..v };
    assert_eq!(w.validate(true, true), Err(AuthError::PasswordsDoNotMatch));
}

#[test]
fn email_shapes() {
    assert!(is_email_shaped("a@b.com"));
    assert!(is_email_shaped("first.last+tag@my-host.co.uk"));
    assert!(is_email_shaped("a@b.c.d"));
    assert!(!is_email_shaped("a@b.c."));
    assert!(!is_email_shaped("a@b..c"));
    assert!(!is_email_shaped("a@b.c..d"));
    assert!(!is_email_shaped("ab.com"));
    assert!(!is_email_shaped("@b.com"));
    assert!(!is_email_shaped("a@.com"));
    assert!(!is_email_shaped("a@bcom"));
    assert!(!is_email_shaped("a@b."));
    assert!(!is_email_shaped("a@b@c.com"));
    assert!(!is_email_shaped("a b@c.com"));
    assert!(!is_email_shaped("a@b.c!m"));
    assert!(!is_email_shaped(""));
}

#[test]
fn letters_and_text_equality() {
    assert!(contains_ascii_letter("12a"));
    assert!(!contains_ascii_letter("123\u{e9}"));
    assert!(same_text("abc", "abc"));
    assert!(!same_text("abc", "abd"));
    assert!(!same_text("abc", "ab"));
}

#[test]
fn decimal_parsing() {
    assert_eq!(parse_i32("42"), Some(42));
    assert_eq!(parse_i32("-17"), Some(-17));
    assert_eq!(parse_i32("007"), Some(7));
    assert_eq!(parse_i32("2147483647"), Some(2147483647));
    assert_eq!(parse_i32("-2147483648"), Some(-2147483648));
    assert_eq!(parse_i32("2147483648"), None);
    assert_eq!(parse_i32("99999999999999999999"), None);
    assert_eq!(parse_i32("-"), None);
    assert_eq!(parse_i32(""), None);
    assert_eq!(parse_i32("4a"), None);
    assert_eq!(parse_i32("+5"), Some(5));
    assert_eq!(parse_i32("+"), None);
    assert_eq!(parse_i32("+-5"), None);
}

#[test]
fn hash_then_verify() {
    let h = hash_password("hunter2x").unwrap();
    assert_ne!(h, "hunter2x");
    assert!(verify_password("hunter2x", &h));
    assert!(!verify_password("hunter2y", &h));
    assert!(!verify_password("hunter2x", ""));
    assert!(!verify_password("hunter2x", "not a hash"));
}

#[test]
fn error_categories() {
    assert_eq!(AuthError::InternalError.category(), "internal_error");
    assert_eq!(AuthError::InternalError.code(), "internal_error");
    assert_eq!(AuthError::EmailNotVerified.code(), "email_not_verified");
    assert_eq!(AuthError::EmailInvalid.code(), "email_invalid");
    assert_eq!(AuthError::EmailTooShort.code(), "email_too_short");
    assert_eq!(AuthError::UsernameTooShort.code(), "username_too_short");
    assert_eq!(AuthError::UsernameAlreadyExists.category(), "conflict");
    assert_eq!(AuthError::NotFound.category(), "not_found");
}

#[test]
fn password_verdict_given_digit_search() {
    assert_eq!(password_verdict("abcde", "abcde", true), Ok(()));
    assert_eq!(password_verdict("abcd1", "abcd1", false), Err(AuthError::PasswordTooWeak));
    assert_eq!(password_verdict("12345", "12345", true), Err(AuthError::PasswordTooWeak));
    assert_eq!(password_verdict("ab1c", "ab1c", true), Err(AuthError::PasswordTooShort));
    assert_eq!(password_verdict("abcd1", "abcd2", true), Err(AuthError::PasswordsDoNotMatch));
}

#[test]
fn decimal_text_of_integers() {
    assert_eq!(int_text(0), "0");
    assert_eq!(int_text(42), "42");
    assert_eq!(int_text(-7), "-7");
    assert_eq!(int_text(2147483647), "2147483647");
    assert_eq!(int_text(-2147483648), "-2147483648");
}
