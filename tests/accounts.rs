use authcore::api::{Mutation, Query};
use authcore::auth::AuthenticationToken;
use authcore::repository::{UserLogin, UserRepository};
use authcore::token::TokenCodec;
use authcore::validation::{AuthError, ChangePassword, UserRegister};

const NOW: u64 = 1_700_000_000;

fn repo() -> UserRepository {
    UserRepository::new(TokenCodec::new("test-secret".to_string()))
}

fn input(username: &str, email: &str, p1: &str, p2: &str) -> UserRegister {
    UserRegister {
        username: username.to_string(),
        email: email.to_string(),
        password1: p1.to_string(),
        password2: p2.to_string(),
    }
}

fn login_input(email: &str, password: &str) -> UserLogin {
    UserLogin { email: email.to_string(), password: password.to_string() }
}

#[test]
fn register_example_succeeds_unverified() {
    let mut r = repo();
    let (user, mail) = r.register(input("abc", "a@b.com", "pass12", "pass12"), NOW).unwrap();
    assert_eq!(user.id, 1);
    assert_eq!(user.username, "abc");
    assert_eq!(user.email, "a@b.com");
    assert!(!user.email_verified);
    assert!(user.password.is_some());
    assert_ne!(user.password.as_deref(), Some("pass12"));
    assert_eq!(user.created_at, NOW);
    assert_eq!(mail.to, "a@b.com");
    assert_eq!(mail.subject, "Account Activation");
    assert_eq!(mail.template, "emails/register.html");
    assert!(mail.link.starts_with("http://localhost:3000/verify/"));
    assert_eq!(r.all_users().len(), 1);
}

#[test]
fn register_email_conflict_wins_over_username_conflict() {
    let mut r = repo();
    r.register(input("abc", "a@b.com", "pass12", "pass12"), NOW).unwrap();
    let e = r.register(input("abc", "a@b.com", "pass12", "pass12"), NOW).err().unwrap();
    assert_eq!(e, AuthError::EmailAlreadyExists);
    assert_eq!(e.code(), "email_already_exists");
    assert_eq!(e.category(), "conflict");
    let e = r.register(input("abc", "other@b.com", "pass12", "pass12"), NOW).err().unwrap();
    assert_eq!(e, AuthError::UsernameAlreadyExists);
    assert_eq!(r.all_users().len(), 1);
}

#[test]
fn register_short_username_after_email_checks() {
    let mut r = repo();
    let e = r.register(input("ab", "a@b.com", "pass12", "pass12"), NOW).err().unwrap();
    assert_eq!(e, AuthError::UsernameTooShort);
    let e = r.register(input("ab", "a@b", "pass12", "pass12"), NOW).err().unwrap();
    assert_eq!(e, AuthError::EmailTooShort);
    let e = r.register(input("ab", "ab.com", "pass12", "pass12"), NOW).err().unwrap();
    assert_eq!(e, AuthError::EmailInvalid);
    let e = r.register(input("ab", "a@b.com", "pass12", "pass13"), NOW).err().unwrap();
    assert_eq!(e, AuthError::PasswordsDoNotMatch);
    assert_eq!(e.code(), "passwords_do_not_match");
    assert_eq!(e.category(), "validation_error");
    assert!(r.all_users().is_empty());
}

#[test]
fn login_unverified_account_is_refused() {
    let mut r = repo();
    r.register(input("abc", "a@b.com", "pass12", "pass12"), NOW).unwrap();
    let e = r.login(&login_input("a@b.com", "pass12"), NOW).err().unwrap();
    assert_eq!(e, AuthError::EmailNotVerified);
    let e = r.login(&login_input("a@b.com", "wrong1"), NOW).err().unwrap();
    assert_eq!(e, AuthError::EmailNotVerified);
    assert_eq!(e.category(), "unverified");
}

#[test]
fn login_after_verification_issues_session() {
    let mut r = repo();
    let (user, _) = r.register(input("abc", "a@b.com", "pass12", "pass12"), NOW).unwrap();
    let msg = r.verify_email("a@b.com");
    assert!(msg.success);
    assert_eq!(msg.message, "Email verified");
    let resp = r.login(&login_input("a@b.com", "pass12"), NOW).unwrap();
    assert_eq!(resp.user.id, user.id);
    assert!(resp.user.email_verified);
    assert_eq!(resp.refresh_token, "");
    assert_eq!(r.codec().get_user_id(&resp.token, NOW), Some(user.id));
    let e = r.login(&login_input("a@b.com", "pass13"), NOW).err().unwrap();
    assert_eq!(e, AuthError::InvalidCredentials);
    let e = r.login(&login_input("nobody@b.com", "pass12"), NOW).err().unwrap();
    assert_eq!(e, AuthError::InvalidCredentials);
    assert_eq!(e.code(), "invalid_credentials");
}

#[test]
fn password_reset_response_same_for_unknown_and_known() {
    let mut r = repo();
    let (unknown, mail) = r.request_password_reset("nobody@x.com", NOW);
    assert!(mail.is_none());
    r.register(input("abc", "a@b.com", "pass12", "pass12"), NOW).unwrap();
    let (known, mail) = r.request_password_reset("a@b.com", NOW);
    assert_eq!(unknown.message, known.message);
    assert_eq!(unknown.success, known.success);
    assert_eq!(known.message, "Password reset instruction sent");
    assert!(known.success);
    let mail = mail.unwrap();
    assert_eq!(mail.to, "a@b.com");
    assert_eq!(mail.username, "abc");
    assert_eq!(mail.template, "emails/password-reset.html");
    let token = mail.link.strip_prefix("http://localhost:3000/reset-password/").unwrap();
    assert_eq!(r.codec().extract_email(token, NOW), Some("a@b.com".to_string()));
}

#[test]
fn verify_email_twice_is_noop() {
    let mut r = repo();
    r.register(input("abc", "a@b.com", "pass12", "pass12"), NOW).unwrap();
    let first = r.verify_email("a@b.com");
    let after_first = r.get(1).unwrap();
    let second = r.verify_email("a@b.com");
    let after_second = r.get(1).unwrap();
    assert!(first.success && second.success);
    assert_eq!(first.message, second.message);
    assert!(after_first.email_verified);
    assert!(after_second.email_verified);
    assert_eq!(after_first.password, after_second.password);
    assert_eq!(after_first.updated_at, after_second.updated_at);
    let unknown = r.verify_email("nobody@x.com");
    assert!(unknown.success);
}

#[test]
fn verify_email_through_token() {
    let mut r = repo();
    let (_, mail) = r.register(input("abc", "a@b.com", "pass12", "pass12"), NOW).unwrap();
    let link = mail.link;
    let token = link.strip_prefix("http://localhost:3000/verify/").unwrap();
    let bad = Mutation::verify_email(&mut r, "not-a-token", NOW);
    assert!(bad.success);
    assert!(!r.get(1).unwrap().email_verified);
    Mutation::verify_email(&mut r, token, NOW);
    assert!(r.get(1).unwrap().email_verified);
}

#[test]
fn change_password_through_reset_token() {
    let mut r = repo();
    r.register(input("abc", "a@b.com", "pass12", "pass12"), NOW).unwrap();
    r.verify_email("a@b.com");
    let (_, mail) = r.request_password_reset("a@b.com", NOW);
    let link = mail.unwrap().link;
    let token = link.strip_prefix("http://localhost:3000/reset-password/").unwrap().to_string();
    let change = ChangePassword { token, password1: "newpw9".to_string(), password2: "newpw9".to_string() };
    let msg = r.change_password(&change, NOW).unwrap();
    assert_eq!(msg.message, "Password changed");
    assert!(r.login(&login_input("a@b.com", "newpw9"), NOW).is_ok());
    assert_eq!(r.login(&login_input("a@b.com", "pass12"), NOW).err(), Some(AuthError::InvalidCredentials));
}

#[test]
fn change_password_with_bad_token_is_not_found() {
    let mut r = repo();
    r.register(input("abc", "a@b.com", "pass12", "pass12"), NOW).unwrap();
    let change = ChangePassword {
        token: "garbage".to_string(),
        password1: "newpw9".to_string(),
        password2: "newpw9".to_string(),
    };
    let e = r.change_password(&change, NOW).err().unwrap();
    assert_eq!(e, AuthError::NotFound);
    assert_eq!(e.code(), "not_found");
    let weak = ChangePassword { token: "garbage".to_string(), password1: "newpwx".to_string(), password2: "newpwx".to_string() };
    assert_eq!(r.change_password(&weak, NOW).err(), Some(AuthError::PasswordTooWeak));
}

#[test]
fn change_password_with_expired_token_is_not_found() {
    let mut r = repo();
    r.register(input("abc", "a@b.com", "pass12", "pass12"), NOW).unwrap();
    let (_, mail) = r.request_password_reset("a@b.com", NOW);
    let link = mail.unwrap().link;
    let token = link.strip_prefix("http://localhost:3000/reset-password/").unwrap().to_string();
    let change = ChangePassword { token, password1: "newpw9".to_string(), password2: "newpw9".to_string() };
    let later = NOW + 1800 + 604800 + 61;
    assert_eq!(r.change_password(&change, later).err(), Some(AuthError::NotFound));
}

#[test]
fn get_and_me() {
    let mut r = repo();
    assert_eq!(r.get(1).err(), Some(AuthError::NotFound));
    r.register(input("abc", "a@b.com", "pass12", "pass12"), NOW).unwrap();
    assert_eq!(r.get(1).unwrap().username, "abc");
    assert_eq!(r.get(0).err(), Some(AuthError::NotFound));
    assert_eq!(r.get(2).err(), Some(AuthError::NotFound));
    let token = r.codec().generate_jwt(1, NOW);
    let header = format!("Bearer {}", token);
    let auth = AuthenticationToken::from_header(Some(&header), r.codec(), NOW);
    assert!(auth.authenticated);
    assert_eq!(auth.id, Some(1));
    assert_eq!(Query::me(&r, &auth).unwrap().email, "a@b.com");
    assert_eq!(Query::users(&r).len(), 1);
    assert_eq!(Query::apiVersion(), "1.0");
    let anonymous = AuthenticationToken::from_header(None, r.codec(), NOW);
    assert!(!anonymous.authenticated);
    assert_eq!(Query::me(&r, &anonymous).err(), Some(AuthError::NotFound));
}

#[test]
fn add_account_with_and_without_hash() {
    let mut r = repo();
    let e = r.add_account(input("abc", "a@b.com", "pass12", "pass12"), None, NOW).err().unwrap();
    assert_eq!(e, AuthError::InternalError);
    assert!(r.all_users().is_empty());
    let (user, mail) = r
        .add_account(input("abc", "a@b.com", "pass12", "pass12"), Some("stored-hash".to_string()), NOW)
        .unwrap();
    assert_eq!(user.id, 1);
    assert_eq!(user.password.as_deref(), Some("stored-hash"));
    assert!(!user.email_verified);
    assert_eq!(mail.to, "a@b.com");
    let token = mail.link.strip_prefix("http://localhost:3000/verify/").unwrap();
    assert_eq!(r.codec().extract_email(token, NOW), Some("a@b.com".to_string()));
    assert_eq!(r.all_users().len(), 1);
}

#[test]
fn store_password_with_and_without_hash() {
    let mut r = repo();
    r.register(input("abc", "a@b.com", "pass12", "pass12"), NOW).unwrap();
    let before = r.get(1).unwrap().password;
    assert_eq!(r.store_password(1, None), Err(AuthError::InternalError));
    assert_eq!(r.get(1).unwrap().password, before);
    assert_eq!(r.store_password(1, Some("h2".to_string())), Ok(()));
    assert_eq!(r.get(1).unwrap().password.as_deref(), Some("h2"));
    assert_eq!(r.store_password(5, Some("h3".to_string())), Ok(()));
    assert_eq!(r.get(1).unwrap().password.as_deref(), Some("h2"));
}

#[test]
fn register_stores_bcrypt_shaped_hash() {
    let mut r = repo();
    let (user, _) = r.register(input("abc", "a@b.com", "pass12", "pass12"), NOW).unwrap();
    let h = user.password.unwrap();
    assert_eq!(h.len(), 60);
    assert!(h.starts_with("$2b$10$"));
}
