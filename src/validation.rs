//! Checks on registration and password-change input, and the library's
//! error kinds.
use vstd::prelude::*;
use crate::text::{contains_ascii_letter, email_shape, has_ascii_letter, is_email_shaped, same_text};

verus! {

/// Why an operation failed.
#[derive(Clone, Copy, Debug, PartialEq, Eq, Structural)]
pub enum AuthError {
    PasswordsDoNotMatch,
    PasswordTooShort,
    PasswordTooWeak,
    EmailTooShort,
    EmailInvalid,
    EmailAlreadyExists,
    UsernameTooShort,
    UsernameAlreadyExists,
    NotFound,
    InvalidCredentials,
    EmailNotVerified,
    InternalError,
}

impl AuthError {
    /// The machine-readable code of the error.
    pub fn code(&self) -> (r: &'static str)
        ensures
            r@ == error_code(*self),
    {
        match self {
            AuthError::PasswordsDoNotMatch => "passwords_do_not_match",
            AuthError::PasswordTooShort => "password_too_short",
            AuthError::PasswordTooWeak => "password_too_weak",
            AuthError::EmailTooShort => "email_too_short",
            AuthError::EmailInvalid => "email_invalid",
            AuthError::EmailAlreadyExists => "email_already_exists",
            AuthError::UsernameTooShort => "username_too_short",
            AuthError::UsernameAlreadyExists => "username_already_exists",
            AuthError::NotFound => "not_found",
            AuthError::InvalidCredentials => "invalid_credentials",
            AuthError::EmailNotVerified => "email_not_verified",
            AuthError::InternalError => "internal_error",
        }
    }

    /// The family the error belongs to.
    pub fn category(&self) -> (r: &'static str)
        ensures
            r@ == error_category(*self),
    {
        match self {
            AuthError::EmailAlreadyExists | AuthError::UsernameAlreadyExists => "conflict",
            AuthError::NotFound => "not_found",
            AuthError::InvalidCredentials => "invalid_credentials",
            AuthError::EmailNotVerified => "unverified",
            AuthError::InternalError => "internal_error",
            _ => "validation_error",
        }
    }

    /// A human-readable message for the error.
    pub fn message(&self) -> (r: &'static str)
        ensures
            r@ == error_message(*self),
    {
        match self {
            AuthError::PasswordsDoNotMatch => "Passwords do not match",
            AuthError::PasswordTooShort => "Password is too short",
            AuthError::PasswordTooWeak => "Password is too weak",
            AuthError::EmailTooShort => "Email is too short",
            AuthError::EmailInvalid => "Email is invalid",
            AuthError::EmailAlreadyExists => "user with email already exists",
            AuthError::UsernameTooShort => "Username is too short",
            AuthError::UsernameAlreadyExists => "username already taken",
            AuthError::NotFound => "User not found",
            AuthError::InvalidCredentials => "invalid credentials",
            AuthError::EmailNotVerified => "Email not verified",
            AuthError::InternalError => "Internal error",
        }
    }
}

pub open spec fn error_code(e: AuthError) -> Seq<char> {
    match e {
        AuthError::PasswordsDoNotMatch => "passwords_do_not_match"@,
        AuthError::PasswordTooShort => "password_too_short"@,
        AuthError::PasswordTooWeak => "password_too_weak"@,
        AuthError::EmailTooShort => "email_too_short"@,
        AuthError::EmailInvalid => "email_invalid"@,
        AuthError::EmailAlreadyExists => "email_already_exists"@,
        AuthError::UsernameTooShort => "username_too_short"@,
        AuthError::UsernameAlreadyExists => "username_already_exists"@,
        AuthError::NotFound => "not_found"@,
        AuthError::InvalidCredentials => "invalid_credentials"@,
        AuthError::EmailNotVerified => "email_not_verified"@,
        AuthError::InternalError => "internal_error"@,
    }
}

pub open spec fn error_category(e: AuthError) -> Seq<char> {
    match e {
        AuthError::EmailAlreadyExists | AuthError::UsernameAlreadyExists => "conflict"@,
        AuthError::NotFound => "not_found"@,
        AuthError::InvalidCredentials => "invalid_credentials"@,
        AuthError::EmailNotVerified => "unverified"@,
        AuthError::InternalError => "internal_error"@,
        _ => "validation_error"@,
    }
}

pub open spec fn error_message(e: AuthError) -> Seq<char> {
    match e {
        AuthError::PasswordsDoNotMatch => "Passwords do not match"@,
        AuthError::PasswordTooShort => "Password is too short"@,
        AuthError::PasswordTooWeak => "Password is too weak"@,
        AuthError::EmailTooShort => "Email is too short"@,
        AuthError::EmailInvalid => "Email is invalid"@,
        AuthError::EmailAlreadyExists => "user with email already exists"@,
        AuthError::UsernameTooShort => "Username is too short"@,
        AuthError::UsernameAlreadyExists => "username already taken"@,
        AuthError::NotFound => "User not found"@,
        AuthError::InvalidCredentials => "invalid credentials"@,
        AuthError::EmailNotVerified => "Email not verified"@,
        AuthError::InternalError => "Internal error"@,
    }
}

/// Whether some part of `text` matches the regular expression `pattern`;
/// `None` where the pattern does not compile.
pub uninterp spec fn regex_found(pattern: Seq<char>, text: Seq<char>) -> Option<bool>;

/// Relies on `regex::Regex::new` and `Regex::is_match`: the answer depends on
/// the pattern and the text alone, and the pattern `\d` compiles.
#[verifier::external_body]
fn regex_search(pattern: &str, text: &str) -> (r: Option<bool>)
    ensures
        r == regex_found(pattern@, text@),
        pattern@ == digit_pattern() ==> r is Some,
{
    match regex::Regex::new(pattern) {
        Ok(re) => Some(re.is_match(text)),
        Err(_) => None,
    }
}

/// The pattern of a decimal digit (any Unicode decimal digit).
pub open spec fn digit_pattern() -> Seq<char> {
    seq!['\\', 'd']
}

/// Length of a text in UTF-8 bytes, as `str::len` reports it.
pub open spec fn byte_len(s: Seq<char>) -> usize {
    vstd::utf8::encode_utf8(s).len() as usize
}

/// Shortest accepted password, in bytes.
pub const MIN_PASSWORD_LEN: usize = 5;

/// Shortest accepted e-mail address, in bytes.
pub const MIN_EMAIL_LEN: usize = 5;

/// Shortest accepted username, in bytes.
pub const MIN_USERNAME_LEN: usize = 3;

/// Some character of `p` is a decimal digit (`\d`, any Unicode decimal
/// digit).
pub open spec fn has_digit(p: Seq<char>) -> bool {
    regex_found(digit_pattern(), p) == Some(true)
}

/// The password rules, in order, given whether the password holds a decimal
/// digit: the two entries agree, the password is long enough, and it holds an
/// ASCII letter and a digit.
pub open spec fn password_verdict_rule(p1: Seq<char>, p2: Seq<char>, digit: bool) -> Result<(), AuthError> {
    if p1 != p2 {
        Err(AuthError::PasswordsDoNotMatch)
    } else if byte_len(p1) < MIN_PASSWORD_LEN {
        Err(AuthError::PasswordTooShort)
    } else if !(has_ascii_letter(p1) && digit) {
        Err(AuthError::PasswordTooWeak)
    } else {
        Ok(())
    }
}

/// The password rules, in order: the two entries agree, the password is long
/// enough, and it holds an ASCII letter and a decimal digit.
pub open spec fn password_rule(p1: Seq<char>, p2: Seq<char>) -> Result<(), AuthError> {
    password_verdict_rule(p1, p2, has_digit(p1))
}

/// The registration rules, in order, the first that fails deciding the
/// error: the password rules, then the e-mail address's length and shape,
/// then whether the address is taken, then the username's length, then
/// whether the username is taken.
pub open spec fn registration_rule(
    username: Seq<char>,
    email: Seq<char>,
    p1: Seq<char>,
    p2: Seq<char>,
    email_taken: bool,
    username_taken: bool,
) -> Result<(), AuthError> {
    if password_rule(p1, p2) is Err {
        password_rule(p1, p2)
    } else if byte_len(email) < MIN_EMAIL_LEN {
        Err(AuthError::EmailTooShort)
    } else if !email_shape(email) {
        Err(AuthError::EmailInvalid)
    } else if email_taken {
        Err(AuthError::EmailAlreadyExists)
    } else if byte_len(username) < MIN_USERNAME_LEN {
        Err(AuthError::UsernameTooShort)
    } else if username_taken {
        Err(AuthError::UsernameAlreadyExists)
    } else {
        Ok(())
    }
}

/// Applies the password rules, given whether `p1` holds a decimal digit.
pub fn password_verdict(p1: &str, p2: &str, digit: bool) -> (r: Result<(), AuthError>)
    ensures
        r == password_verdict_rule(p1@, p2@, digit),
{
    if !same_text(p1, p2) {
        return Err(AuthError::PasswordsDoNotMatch);
    }
    if p1.len() < MIN_PASSWORD_LEN {
        return Err(AuthError::PasswordTooShort);
    }
    if !(contains_ascii_letter(p1) && digit) {
        return Err(AuthError::PasswordTooWeak);
    }
    Ok(())
}

fn check_password(p1: &String, p2: &String) -> (r: Result<(), AuthError>)
    ensures
        r == password_rule(p1@, p2@),
{
    let pattern = "\\d";
    proof {
        reveal_strlit("\\d");
        assert(pattern@ =~= digit_pattern());
    }
    let digit = match regex_search(pattern, p1.as_str()) {
        Some(found) => found,
        None => false,
    };
    password_verdict(p1.as_str(), p2.as_str(), digit)
}

/// Input of a registration.
pub struct UserRegister {
    pub username: String,
    pub email: String,
    pub password1: String,
    pub password2: String,
}

impl UserRegister {
    /// Applies the registration rules, given whether an account already holds
    /// this e-mail address and whether one already holds this username.
    pub fn validate(&self, email_taken: bool, username_taken: bool) -> (r: Result<(), AuthError>)
        ensures
            r == registration_rule(
                self.username@,
                self.email@,
                self.password1@,
                self.password2@,
                email_taken,
                username_taken,
            ),
    {
        check_password(&self.password1, &self.password2)?;
        if self.email.as_str().len() < MIN_EMAIL_LEN {
            return Err(AuthError::EmailTooShort);
        }
        if !is_email_shaped(self.email.as_str()) {
            return Err(AuthError::EmailInvalid);
        }
        if email_taken {
            return Err(AuthError::EmailAlreadyExists);
        }
        if self.username.as_str().len() < MIN_USERNAME_LEN {
            return Err(AuthError::UsernameTooShort);
        }
        if username_taken {
            return Err(AuthError::UsernameAlreadyExists);
        }
        Ok(())
    }
}

/// Input of a password change: an action token and the new password twice.
pub struct ChangePassword {
    pub token: String,
    pub password1: String,
    pub password2: String,
}

impl ChangePassword {
    /// Applies the password rules to the new password.
    pub fn validate(&self) -> (r: Result<(), AuthError>)
        ensures
            r == password_rule(self.password1@, self.password2@),
    {
        check_password(&self.password1, &self.password2)
    }
}

/// Once the password rules and the e-mail address's length and shape pass,
/// an address already in use decides the outcome, whatever the username.
pub proof fn lemma_email_conflict_first(
    username: Seq<char>,
    email: Seq<char>,
    p1: Seq<char>,
    p2: Seq<char>,
    username_taken: bool,
)
    requires
        password_rule(p1, p2) is Ok,
        byte_len(email) >= MIN_EMAIL_LEN,
        email_shape(email),
    ensures
        registration_rule(username, email, p1, p2, true, username_taken) == Err::<(), AuthError>(
            AuthError::EmailAlreadyExists,
        ),
{
}

/// Any failing password, address-length or address-shape rule decides the
/// outcome before either uniqueness check is consulted.
pub proof fn lemma_syntax_before_lookups(
    username: Seq<char>,
    email: Seq<char>,
    p1: Seq<char>,
    p2: Seq<char>,
    email_taken: bool,
    username_taken: bool,
)
    requires
        password_rule(p1, p2) is Err || byte_len(email) < MIN_EMAIL_LEN || !email_shape(email),
    ensures
        registration_rule(username, email, p1, p2, email_taken, username_taken)
            == registration_rule(username, email, p1, p2, false, false),
        registration_rule(username, email, p1, p2, email_taken, username_taken) is Err,
        registration_rule(username, email, p1, p2, email_taken, username_taken) != Err::<(), AuthError>(
            AuthError::EmailAlreadyExists,
        ),
        registration_rule(username, email, p1, p2, email_taken, username_taken) != Err::<(), AuthError>(
            AuthError::UsernameAlreadyExists,
        ),
{
}

} // verus!
