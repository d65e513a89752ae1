//! The account store and the lifecycle operations over it: registration,
//! e-mail verification, password reset requests, login and password change.
//! Outgoing mail is handed back to the caller as a `MailRequest`, to be sent
//! on a best-effort basis.
use vstd::prelude::*;
use vstd::string::StringExecFns;
use crate::text::{email_shape, opt_view, same_text};
use crate::hashing::{hash_password, password_accepted, verify_password};
use crate::token::{action_subject, action_token, minted_action, minted_session, session_token, TokenCodec, LATEST_CLOCK};
use crate::validation::{registration_rule, password_rule, AuthError, ChangePassword, UserRegister};

verus! {

/// An account record. Times are seconds since the Unix epoch.
pub struct User {
    pub id: i32,
    pub username: String,
    pub email: String,
    pub phone: Option<String>,
    pub first_name: Option<String>,
    pub last_name: Option<String>,
    pub city: Option<String>,
    pub state: Option<String>,
    pub country: Option<String>,
    pub password: Option<String>,
    pub email_verified: bool,
    pub phone_verified: bool,
    pub deleted: bool,
    pub is_staff: bool,
    pub is_superuser: bool,
    pub created_at: u64,
    pub updated_at: u64,
}

/// The value of an account record.
pub struct UserView {
    pub id: i32,
    pub username: Seq<char>,
    pub email: Seq<char>,
    pub phone: Option<Seq<char>>,
    pub first_name: Option<Seq<char>>,
    pub last_name: Option<Seq<char>>,
    pub city: Option<Seq<char>>,
    pub state: Option<Seq<char>>,
    pub country: Option<Seq<char>>,
    pub password: Option<Seq<char>>,
    pub email_verified: bool,
    pub phone_verified: bool,
    pub deleted: bool,
    pub is_staff: bool,
    pub is_superuser: bool,
    pub created_at: u64,
    pub updated_at: u64,
}

impl View for User {
    type V = UserView;

    open spec fn view(&self) -> UserView {
        UserView {
            id: self.id,
            username: self.username@,
            email: self.email@,
            phone: opt_view(self.phone),
            first_name: opt_view(self.first_name),
            last_name: opt_view(self.last_name),
            city: opt_view(self.city),
            state: opt_view(self.state),
            country: opt_view(self.country),
            password: opt_view(self.password),
            email_verified: self.email_verified,
            phone_verified: self.phone_verified,
            deleted: self.deleted,
            is_staff: self.is_staff,
            is_superuser: self.is_superuser,
            created_at: self.created_at,
            updated_at: self.updated_at,
        }
    }
}

fn copy_opt(o: &Option<String>) -> (r: Option<String>)
    ensures
        opt_view(r) == opt_view(*o),
{
    match o {
        Some(s) => Some(s.clone()),
        None => None,
    }
}

impl User {
    /// A copy of the record.
    pub fn copy(&self) -> (r: User)
        ensures
            r@ == self@,
    {
        User {
            id: self.id,
            username: self.username.clone(),
            email: self.email.clone(),
            phone: copy_opt(&self.phone),
            first_name: copy_opt(&self.first_name),
            last_name: copy_opt(&self.last_name),
            city: copy_opt(&self.city),
            state: copy_opt(&self.state),
            country: copy_opt(&self.country),
            password: copy_opt(&self.password),
            email_verified: self.email_verified,
            phone_verified: self.phone_verified,
            deleted: self.deleted,
            is_staff: self.is_staff,
            is_superuser: self.is_superuser,
            created_at: self.created_at,
            updated_at: self.updated_at,
        }
    }
}

/// Login input.
pub struct UserLogin {
    pub email: String,
    pub password: String,
}

/// What a successful login hands back. The refresh token is always empty.
pub struct LoginResponse {
    pub token: String,
    pub user: User,
    pub refresh_token: String,
}

/// A generic confirmation.
pub struct SuccessMessage {
    pub message: String,
    pub success: bool,
}

/// A templated message for the notification channel to render and send.
pub struct MailRequest {
    pub to: String,
    pub from: String,
    pub subject: String,
    pub template: String,
    pub username: String,
    pub email: String,
    pub domain: String,
    pub logo: String,
    pub company: String,
    pub link: String,
}

pub const SENDER: &'static str = "info@ascendth.com";
pub const DOMAIN: &'static str = "http://localhost:3000";
pub const LOGO: &'static str = "https://www.elegal.ascendth.com/_next/image?url=https%3A%2F%2Felegal-ascend.s3.amazonaws.com%2Fpublic%2Flogo.png&w=256&q=75";
pub const COMPANY: &'static str = "drgz";
pub const VERIFY_LINK: &'static str = "http://localhost:3000/verify/";
pub const RESET_LINK: &'static str = "http://localhost:3000/reset-password/";
pub const WELCOME_SUBJECT: &'static str = "Account Activation";
pub const WELCOME_TEMPLATE: &'static str = "emails/register.html";
pub const RESET_SUBJECT: &'static str = "Password reset";
pub const RESET_TEMPLATE: &'static str = "emails/password-reset.html";
pub const VERIFIED_MESSAGE: &'static str = "Email verified";
pub const RESET_MESSAGE: &'static str = "Password reset instruction sent";
pub const CHANGED_MESSAGE: &'static str = "Password changed";

/// A message to `username` at `email` from the fixed sender, with the fixed
/// branding, whose link is `link_base` followed by `token`.
pub open spec fn mail_fits(
    m: MailRequest,
    subject: Seq<char>,
    template: Seq<char>,
    username: Seq<char>,
    email: Seq<char>,
    link_base: Seq<char>,
    token: Seq<char>,
) -> bool {
    &&& m.to@ == email
    &&& m.from@ == SENDER@
    &&& m.subject@ == subject
    &&& m.template@ == template
    &&& m.username@ == username
    &&& m.email@ == email
    &&& m.domain@ == DOMAIN@
    &&& m.logo@ == LOGO@
    &&& m.company@ == COMPANY@
    &&& m.link@ == link_base + token
}

/// A message fitting `mail_fits` whose link carries the action token for
/// `email` minted at clock reading `now` (a token that stands for `email`).
pub open spec fn action_mail(
    secret: Seq<char>,
    m: MailRequest,
    subject: Seq<char>,
    template: Seq<char>,
    username: Seq<char>,
    email: Seq<char>,
    link_base: Seq<char>,
    now: u64,
) -> bool {
    &&& mail_fits(m, subject, template, username, email, link_base, action_token(secret, email, now))
    &&& minted_action(secret, action_token(secret, email, now), email, now)
}

fn build_mail(
    subject: &str,
    template: &str,
    username: &str,
    email: &str,
    link_base: &str,
    token: &str,
) -> (r: MailRequest)
    ensures
        mail_fits(r, subject@, template@, username@, email@, link_base@, token@),
{
    let mut link = link_base.to_owned();
    link.append(token);
    MailRequest {
        to: email.to_owned(),
        from: SENDER.to_owned(),
        subject: subject.to_owned(),
        template: template.to_owned(),
        username: username.to_owned(),
        email: email.to_owned(),
        domain: DOMAIN.to_owned(),
        logo: LOGO.to_owned(),
        company: COMPANY.to_owned(),
        link,
    }
}

fn success(message: &str) -> (r: SuccessMessage)
    ensures
        r.message@ == message@,
        r.success,
{
    SuccessMessage { message: message.to_owned(), success: true }
}

/// Some account holds the e-mail address `e`.
pub open spec fn email_taken(accounts: Seq<UserView>, e: Seq<char>) -> bool {
    exists|i: int| 0 <= i < accounts.len() && (#[trigger] accounts[i]).email == e
}

/// Some account holds the username `u`.
pub open spec fn username_taken(accounts: Seq<UserView>, u: Seq<char>) -> bool {
    exists|i: int| 0 <= i < accounts.len() && (#[trigger] accounts[i]).username == u
}

/// The account that holds the e-mail address `e`, if any.
pub open spec fn account_with_email(accounts: Seq<UserView>, e: Seq<char>) -> Option<UserView> {
    if email_taken(accounts, e) {
        Some(accounts[choose|i: int| 0 <= i < accounts.len() && (#[trigger] accounts[i]).email == e])
    } else {
        None
    }
}

/// The account with id `id`, if any.
pub open spec fn account_with_id(accounts: Seq<UserView>, id: i32) -> Option<UserView> {
    if exists|i: int| 0 <= i < accounts.len() && (#[trigger] accounts[i]).id == id {
        Some(accounts[choose|i: int| 0 <= i < accounts.len() && (#[trigger] accounts[i]).id == id])
    } else {
        None
    }
}

/// The hash text that login checks against: a missing hash counts as empty.
pub open spec fn stored_hash(a: UserView) -> Seq<char> {
    match a.password {
        Some(h) => h,
        None => Seq::empty(),
    }
}

/// The login rules, in order: the address must belong to an account, the
/// account must be verified, and the password must match its hash.
pub open spec fn login_rule(account: Option<UserView>, password: Seq<char>) -> Result<UserView, AuthError> {
    match account {
        None => Err(AuthError::InvalidCredentials),
        Some(a) => if !a.email_verified {
            Err(AuthError::EmailNotVerified)
        } else if password_accepted(password, stored_hash(a)) {
            Ok(a)
        } else {
            Err(AuthError::InvalidCredentials)
        },
    }
}

/// Every account holding the address `e` marked as verified; the others kept.
pub open spec fn mark_verified(accounts: Seq<UserView>, e: Seq<char>) -> Seq<UserView> {
    accounts.map_values(|a: UserView| if a.email == e { UserView { email_verified: true, ..a } } else { a })
}

/// The account with id `id` given the password hash text `h`; the others kept.
pub open spec fn set_password(accounts: Seq<UserView>, id: i32, h: Seq<char>) -> Seq<UserView> {
    accounts.map_values(|a: UserView| if a.id == id { UserView { password: Some(h), ..a } } else { a })
}

/// `after` is `before` with the password hash of account `id` replaced by
/// one that accepts `password`.
pub open spec fn password_replaced(before: Seq<UserView>, after: Seq<UserView>, id: i32, password: Seq<char>) -> bool {
    exists|h: Seq<char>| password_accepted(password, h) && after == #[trigger] set_password(before, id, h)
}

/// A freshly added account with the given id, names and time: unverified,
/// with no profile details. Its password hash is not constrained here.
pub open spec fn fresh_account(a: UserView, id: i32, username: Seq<char>, email: Seq<char>, now: u64) -> bool {
    &&& a.id == id
    &&& a.username == username
    &&& a.email == email
    &&& a.phone is None && a.first_name is None && a.last_name is None
    &&& a.city is None && a.state is None && a.country is None
    &&& !a.email_verified && !a.phone_verified && !a.deleted && !a.is_staff && !a.is_superuser
    &&& a.created_at == now && a.updated_at == now
}

/// A freshly registered account, whose stored hash accepts `password`.
pub open spec fn new_account(
    a: UserView,
    id: i32,
    username: Seq<char>,
    email: Seq<char>,
    password: Seq<char>,
    now: u64,
) -> bool {
    &&& fresh_account(a, id, username, email, now)
    &&& a.password matches Some(h) && password_accepted(password, h) && h.len() == 60
}

/// The largest number of accounts the store holds.
pub const MAX_ACCOUNTS: usize = 2147483646;

/// The address an action token stands for, or the empty text.
pub open spec fn token_email(secret: Seq<char>, token: Seq<char>, now: u64) -> Seq<char> {
    match action_subject(secret, token, now) {
        Some(e) => e,
        None => Seq::empty(),
    }
}

/// Accounts held in memory, with the token codec that signs their tokens.
pub struct UserRepository {
    users: Vec<User>,
    codec: TokenCodec,
}

impl UserRepository {
    /// The accounts, in order of registration.
    pub closed spec fn accounts(&self) -> Seq<UserView> {
        self.users@.map_values(|u: User| u@)
    }

    /// The secret that signs this repository's tokens.
    pub closed spec fn secret(&self) -> Seq<char> {
        self.codec.secret()
    }

    /// Ids are assigned in order from 1; addresses have the shape of an
    /// e-mail address; addresses and usernames are unique.
    pub closed spec fn wf(&self) -> bool {
        &&& self.users@.len() <= MAX_ACCOUNTS
        &&& forall|i: int| 0 <= i < self.users@.len() ==> (#[trigger] self.users@[i]).id == i + 1
        &&& forall|i: int| 0 <= i < self.users@.len() ==> email_shape((#[trigger] self.users@[i]).email@)
        &&& forall|i: int, j: int|
            0 <= i < self.users@.len() && 0 <= j < self.users@.len() && i != j
                ==> #[trigger] self.users@[i].email@ != #[trigger] self.users@[j].email@
        &&& forall|i: int, j: int|
            0 <= i < self.users@.len() && 0 <= j < self.users@.len() && i != j
                ==> #[trigger] self.users@[i].username@ != #[trigger] self.users@[j].username@
    }

    /// What the store's well-formedness gives its accounts: ids run from 1 in
    /// order, every address has the shape of an e-mail address (so none is
    /// empty), and no address or username is held twice.
    pub proof fn lemma_store_facts(&self)
        requires
            self.wf(),
        ensures
            self.accounts().len() <= MAX_ACCOUNTS,
            forall|i: int| 0 <= i < self.accounts().len() ==> (#[trigger] self.accounts()[i]).id == i + 1,
            forall|i: int| 0 <= i < self.accounts().len() ==> email_shape((#[trigger] self.accounts()[i]).email),
            forall|i: int| 0 <= i < self.accounts().len() ==> (#[trigger] self.accounts()[i]).email.len() > 0,
            forall|i: int, j: int|
                0 <= i < self.accounts().len() && 0 <= j < self.accounts().len() && i != j
                    ==> #[trigger] self.accounts()[i].email != #[trigger] self.accounts()[j].email,
            forall|i: int, j: int|
                0 <= i < self.accounts().len() && 0 <= j < self.accounts().len() && i != j
                    ==> #[trigger] self.accounts()[i].username != #[trigger] self.accounts()[j].username,
            !email_taken(self.accounts(), Seq::empty()),
    {
        assert forall|i: int| 0 <= i < self.accounts().len() implies (#[trigger] self.accounts()[i]).email.len() > 0 by {
            assert(email_shape(self.users@[i].email@));
        }
    }

    /// An empty store whose tokens are signed with `codec`.
    pub fn new(codec: TokenCodec) -> (r: UserRepository)
        ensures
            r.wf(),
            r.accounts() == Seq::<UserView>::empty(),
            r.secret() == codec.secret(),
    {
        let r = UserRepository { users: Vec::new(), codec };
        assert(r.accounts() =~= Seq::<UserView>::empty());
        r
    }

    /// The token codec of this repository.
    pub fn codec(&self) -> (r: &TokenCodec)
        ensures
            r.secret() == self.secret(),
    {
        &self.codec
    }

    proof fn lemma_account_is_view(&self, i: int)
        requires
            0 <= i < self.users@.len(),
        ensures
            self.accounts()[i] == self.users@[i]@,
            self.accounts().len() == self.users@.len(),
    {
    }

    /// Registers an account. The registration rules are applied against the
    /// store; where they pass, the password is hashed and the account added
    /// by `add_account`, which hands back the welcome message carrying an
    /// action token for the address. `InternalError` where hashing failed or
    /// the store is full, the store then unchanged.
    pub fn register(&mut self, user: UserRegister, now: u64) -> (r: Result<(User, MailRequest), AuthError>)
        requires
            old(self).wf(),
            now <= LATEST_CLOCK,
        ensures
            final(self).wf(),
            final(self).secret() == old(self).secret(),
            registration_rule(
                user.username@,
                user.email@,
                user.password1@,
                user.password2@,
                email_taken(old(self).accounts(), user.email@),
                username_taken(old(self).accounts(), user.username@),
            ) matches Err(e) ==> r == Err::<(User, MailRequest), AuthError>(e),
            registration_rule(
                user.username@,
                user.email@,
                user.password1@,
                user.password2@,
                email_taken(old(self).accounts(), user.email@),
                username_taken(old(self).accounts(), user.username@),
            ) is Ok && old(self).accounts().len() >= MAX_ACCOUNTS ==> r == Err::<(User, MailRequest), AuthError>(
                AuthError::InternalError,
            ),
            r is Err ==> final(self).accounts() == old(self).accounts(),
            registration_rule(
                user.username@,
                user.email@,
                user.password1@,
                user.password2@,
                email_taken(old(self).accounts(), user.email@),
                username_taken(old(self).accounts(), user.username@),
            ) is Ok ==> r is Ok || r == Err::<(User, MailRequest), AuthError>(AuthError::InternalError),
            r matches Ok((u, mail)) ==> {
                &&& final(self).accounts() == old(self).accounts().push(u@)
                &&& registration_rule(
                    user.username@,
                    user.email@,
                    user.password1@,
                    user.password2@,
                    email_taken(old(self).accounts(), user.email@),
                    username_taken(old(self).accounts(), user.username@),
                ) is Ok
                &&& new_account(
                    u@,
                    (old(self).accounts().len() + 1) as i32,
                    user.username@,
                    user.email@,
                    user.password1@,
                    now,
                )
                &&& action_mail(
                    old(self).secret(),
                    mail,
                    WELCOME_SUBJECT@,
                    WELCOME_TEMPLATE@,
                    user.username@,
                    user.email@,
                    VERIFY_LINK@,
                    now,
                )
            },
    {
        let email_taken = self.find_by_email(user.email.as_str()).is_some();
        let username_taken = self.find_by_username(user.username.as_str());
        match user.validate(email_taken, username_taken) {
            Err(e) => return Err(e),
            Ok(()) => {},
        }
        let hash = hash_password(user.password1.as_str());
        self.add_account(user, hash, now)
    }

    /// Adds an account for `user` with the hash text `hash` as its stored
    /// password hash, and builds its welcome message. `InternalError` where
    /// no hash is given or the store is full, the store then unchanged.
    pub fn add_account(&mut self, user: UserRegister, hash: Option<String>, now: u64) -> (r: Result<(User, MailRequest), AuthError>)
        requires
            old(self).wf(),
            now <= LATEST_CLOCK,
            email_shape(user.email@),
            !email_taken(old(self).accounts(), user.email@),
            !username_taken(old(self).accounts(), user.username@),
        ensures
            final(self).wf(),
            final(self).secret() == old(self).secret(),
            hash is None || old(self).accounts().len() >= MAX_ACCOUNTS ==> r == Err::<(User, MailRequest), AuthError>(
                AuthError::InternalError,
            ) && final(self).accounts() == old(self).accounts(),
            old(self).accounts().len() < MAX_ACCOUNTS ==> (hash matches Some(h) ==> (r matches Ok((u, mail)) && {
                &&& final(self).accounts() == old(self).accounts().push(u@)
                &&& fresh_account(u@, (old(self).accounts().len() + 1) as i32, user.username@, user.email@, now)
                &&& u@.password == Some(h@)
                &&& action_mail(
                    old(self).secret(),
                    mail,
                    WELCOME_SUBJECT@,
                    WELCOME_TEMPLATE@,
                    user.username@,
                    user.email@,
                    VERIFY_LINK@,
                    now,
                )
            })),
    {
        if self.users.len() >= MAX_ACCOUNTS {
            return Err(AuthError::InternalError);
        }
        let hash = match hash {
            Some(h) => h,
            None => return Err(AuthError::InternalError),
        };
        let id = (self.users.len() + 1) as i32;
        let username = user.username;
        let email = user.email;
        let account = User {
            id,
            username: username.clone(),
            email: email.clone(),
            phone: None,
            first_name: None,
            last_name: None,
            city: None,
            state: None,
            country: None,
            password: Some(hash),
            email_verified: false,
            phone_verified: false,
            deleted: false,
            is_staff: false,
            is_superuser: false,
            created_at: now,
            updated_at: now,
        };
        let created = account.copy();
        let ghost old_users = self.users@;
        proof {
            assert forall|i: int| 0 <= i < old_users.len() implies #[trigger] old_users[i].email@ != email@ by {
                self.lemma_account_is_view(i);
            }
            assert forall|i: int| 0 <= i < old_users.len() implies #[trigger] old_users[i].username@ != username@ by {
                self.lemma_account_is_view(i);
            }
        }
        self.users.push(account);
        assert(self.accounts() =~= old(self).accounts().push(created@));
        let token = self.codec.verify_token(email.as_str(), now);
        let mail = build_mail(
            WELCOME_SUBJECT,
            WELCOME_TEMPLATE,
            username.as_str(),
            email.as_str(),
            VERIFY_LINK,
            token.as_str(),
        );
        Ok((created, mail))
    }

    /// Marks every account holding `email` as verified. Succeeds whether or
    /// not such an account exists.
    pub fn verify_email(&mut self, email: &str) -> (r: SuccessMessage)
        requires
            old(self).wf(),
        ensures
            final(self).wf(),
            final(self).secret() == old(self).secret(),
            final(self).accounts() == mark_verified(old(self).accounts(), email@),
            r.message@ == VERIFIED_MESSAGE@,
            r.success,
    {
        let ghost old_users = self.users@;
        let ghost target = mark_verified(old(self).accounts(), email@);
        let mut i: usize = 0;
        while i < self.users.len()
            invariant
                self.codec == old(self).codec,
                old_users == old(self).users@,
                target == mark_verified(old(self).accounts(), email@),
                self.users@.len() == old_users.len(),
                i <= self.users@.len(),
                forall|j: int| 0 <= j < self.users@.len() ==> {
                    &&& (#[trigger] self.users@[j]).id == old_users[j].id
                    &&& self.users@[j].email@ == old_users[j].email@
                    &&& self.users@[j].username@ == old_users[j].username@
                },
                forall|j: int| 0 <= j < i ==> (#[trigger] self.users@[j])@ == target[j],
                forall|j: int| i <= j < self.users@.len() ==> (#[trigger] self.users@[j])@ == old_users[j]@,
                old(self).wf(),
            decreases self.users@.len() - i,
        {
            if same_text(self.users[i].email.as_str(), email) {
                let mut u = self.users[i].copy();
                u.email_verified = true;
                self.users.set(i, u);
            }
            i = i + 1;
        }
        assert(self.accounts() =~= target);
        success(VERIFIED_MESSAGE)
    }

    /// Asks for a password reset. The same confirmation comes back whether or
    /// not an account holds `email`; exactly where one does, a reset message
    /// carrying an action token for the address is handed back.
    pub fn request_password_reset(&self, email: &str, now: u64) -> (r: (SuccessMessage, Option<MailRequest>))
        requires
            self.wf(),
            now <= LATEST_CLOCK,
        ensures
            r.0.message@ == RESET_MESSAGE@,
            r.0.success,
            account_with_email(self.accounts(), email@) is None ==> r.1 is None,
            account_with_email(self.accounts(), email@) matches Some(a) ==> (r.1 matches Some(m) && action_mail(
                self.secret(),
                m,
                RESET_SUBJECT@,
                RESET_TEMPLATE@,
                a.username,
                a.email,
                RESET_LINK@,
                now,
            )),
    {
        let message = success(RESET_MESSAGE);
        match self.find_by_email(email) {
            None => (message, None),
            Some(i) => {
                let user = &self.users[i];
                proof {
                    self.lemma_account_is_view(i as int);
                }
                let token = self.codec.verify_token(user.email.as_str(), now);
                let m = build_mail(
                    RESET_SUBJECT,
                    RESET_TEMPLATE,
                    user.username.as_str(),
                    user.email.as_str(),
                    RESET_LINK,
                    token.as_str(),
                );
                (message, Some(m))
            },
        }
    }

    /// Logs in. Fails with the outcome of the login rules; where they pass,
    /// hands back a session token for the account, the account, and an empty
    /// refresh token.
    pub fn login(&self, user: &UserLogin, now: u64) -> (r: Result<LoginResponse, AuthError>)
        requires
            self.wf(),
            now <= LATEST_CLOCK,
        ensures
            login_rule(account_with_email(self.accounts(), user.email@), user.password@) matches Err(e)
                ==> r == Err::<LoginResponse, AuthError>(e),
            login_rule(account_with_email(self.accounts(), user.email@), user.password@) matches Ok(a)
                ==> (r matches Ok(resp) && {
                &&& resp.user@ == a
                &&& resp.token@ == session_token(self.secret(), a.id, now)
                &&& minted_session(self.secret(), resp.token@, a.id, now)
                &&& resp.refresh_token@.len() == 0
            }),
    {
        let i = match self.find_by_email(user.email.as_str()) {
            None => return Err(AuthError::InvalidCredentials),
            Some(i) => i,
        };
        let found = &self.users[i];
        proof {
            self.lemma_account_is_view(i as int);
        }
        if !found.email_verified {
            return Err(AuthError::EmailNotVerified);
        }
        let empty = "";
        proof {
            reveal_strlit("");
            assert(empty@ =~= Seq::<char>::empty());
        }
        let hash = match &found.password {
            Some(h) => h.as_str(),
            None => empty,
        };
        if !verify_password(user.password.as_str(), hash) {
            return Err(AuthError::InvalidCredentials);
        }
        let token = self.codec.generate_jwt(found.id, now);
        Ok(LoginResponse { token, user: found.copy(), refresh_token: String::new() })
    }

    /// Changes a password through an action token. The password rules come
    /// first; then the token's address (the empty address for a token that
    /// does not resolve, which no account holds) must belong to an account,
    /// else `NotFound`; then the new password is hashed and stored on that
    /// account by `store_password` (`InternalError` where hashing failed).
    pub fn change_password(&mut self, input: &ChangePassword, now: u64) -> (r: Result<SuccessMessage, AuthError>)
        requires
            old(self).wf(),
        ensures
            final(self).wf(),
            final(self).secret() == old(self).secret(),
            password_rule(input.password1@, input.password2@) matches Err(e) ==> r == Err::<SuccessMessage, AuthError>(e),
            password_rule(input.password1@, input.password2@) is Ok && account_with_email(
                old(self).accounts(),
                token_email(old(self).secret(), input.token@, now),
            ) is None ==> r == Err::<SuccessMessage, AuthError>(AuthError::NotFound),
            password_rule(input.password1@, input.password2@) is Ok && action_subject(
                old(self).secret(),
                input.token@,
                now,
            ) is None ==> r == Err::<SuccessMessage, AuthError>(AuthError::NotFound),
            password_rule(input.password1@, input.password2@) is Ok && account_with_email(
                old(self).accounts(),
                token_email(old(self).secret(), input.token@, now),
            ) is Some ==> r is Ok || r == Err::<SuccessMessage, AuthError>(AuthError::InternalError),
            r is Err ==> final(self).accounts() == old(self).accounts(),
            r matches Ok(m) ==> {
                &&& m.message@ == CHANGED_MESSAGE@
                &&& m.success
                &&& password_rule(input.password1@, input.password2@) is Ok
                &&& account_with_email(old(self).accounts(), token_email(old(self).secret(), input.token@, now)) matches Some(a)
                    && password_replaced(old(self).accounts(), final(self).accounts(), a.id, input.password1@)
            },
    {
        match input.validate() {
            Err(e) => return Err(e),
            Ok(()) => {},
        }
        proof {
            self.lemma_store_facts();
        }
        let email = match self.codec.extract_email(input.token.as_str(), now) {
            Some(e) => e,
            None => String::new(),
        };
        let i = match self.find_by_email(email.as_str()) {
            None => return Err(AuthError::NotFound),
            Some(i) => i,
        };
        let hash = hash_password(input.password1.as_str());
        proof {
            self.lemma_account_is_view(i as int);
        }
        let id = self.users[i].id;
        match self.store_password(id, hash) {
            Err(e) => Err(e),
            Ok(()) => Ok(success(CHANGED_MESSAGE)),
        }
    }

    /// Stores the hash text `hash` as the password hash of account `id`,
    /// nothing else changing; `InternalError` where no hash is given, the
    /// store then unchanged.
    pub fn store_password(&mut self, id: i32, hash: Option<String>) -> (r: Result<(), AuthError>)
        requires
            old(self).wf(),
        ensures
            final(self).wf(),
            final(self).secret() == old(self).secret(),
            hash matches Some(h) ==> r is Ok && final(self).accounts() == set_password(old(self).accounts(), id, h@),
            hash is None ==> r == Err::<(), AuthError>(AuthError::InternalError) && final(self).accounts() == old(self).accounts(),
    {
        let hash = match hash {
            Some(h) => h,
            None => return Err(AuthError::InternalError),
        };
        let ghost old_accts = self.accounts();
        let ghost h = hash@;
        if id < 1 || id as usize > self.users.len() {
            proof {
                assert forall|j: int| 0 <= j < old_accts.len() implies (#[trigger] old_accts[j]) == set_password(old_accts, id, h)[j] by {
                    self.lemma_account_is_view(j);
                }
                assert(old_accts =~= set_password(old_accts, id, h));
            }
            return Ok(());
        }
        let i = (id - 1) as usize;
        proof {
            self.lemma_account_is_view(i as int);
        }
        let mut u = self.users[i].copy();
        u.password = Some(hash);
        self.users.set(i, u);
        proof {
            assert forall|j: int| 0 <= j < old_accts.len() implies (#[trigger] self.accounts()[j]) == set_password(old_accts, id, h)[j] by {
                self.lemma_account_is_view(j);
                old(self).lemma_account_is_view(j);
            }
            assert(self.accounts() =~= set_password(old_accts, id, h));
        }
        Ok(())
    }

    /// The account with id `id`; `NotFound` where there is none.
    pub fn get(&self, id: i32) -> (r: Result<User, AuthError>)
        requires
            self.wf(),
        ensures
            match account_with_id(self.accounts(), id) {
                Some(a) => r matches Ok(u) && u@ == a,
                None => r == Err::<User, AuthError>(AuthError::NotFound),
            },
    {
        if id < 1 || id as usize > self.users.len() {
            proof {
                assert forall|j: int| 0 <= j < self.accounts().len() implies (#[trigger] self.accounts()[j]).id != id by {
                    self.lemma_account_is_view(j);
                }
            }
            return Err(AuthError::NotFound);
        }
        let i = (id - 1) as usize;
        proof {
            self.lemma_account_is_view(i as int);
            let k = choose|k: int| 0 <= k < self.accounts().len() && (#[trigger] self.accounts()[k]).id == id;
            self.lemma_account_is_view(k);
        }
        Ok(self.users[i].copy())
    }

    /// Every account, in order of registration.
    pub fn all_users(&self) -> (r: Vec<User>)
        ensures
            r@.map_values(|u: User| u@) == self.accounts(),
    {
        let mut out: Vec<User> = Vec::new();
        let mut i: usize = 0;
        while i < self.users.len()
            invariant
                i <= self.users@.len(),
                out@.len() == i,
                forall|j: int| 0 <= j < i ==> (#[trigger] out@[j])@ == self.users@[j]@,
            decreases self.users@.len() - i,
        {
            out.push(self.users[i].copy());
            i = i + 1;
        }
        assert(out@.map_values(|u: User| u@) =~= self.accounts());
        out
    }

    fn find_by_email(&self, email: &str) -> (r: Option<usize>)
        requires
            self.wf(),
        ensures
            r matches Some(i) ==> i < self.accounts().len() && self.accounts()[i as int].email == email@
                && account_with_email(self.accounts(), email@) == Some(self.accounts()[i as int]),
            r is None ==> !email_taken(self.accounts(), email@),
            r is None ==> account_with_email(self.accounts(), email@) is None,
    {
        let ghost accts = self.accounts();
        let mut i: usize = 0;
        while i < self.users.len()
            invariant
                self.wf(),
                accts == self.accounts(),
                i <= self.users@.len(),
                forall|j: int| 0 <= j < i ==> (#[trigger] accts[j]).email != email@,
            decreases self.users@.len() - i,
        {
            if same_text(self.users[i].email.as_str(), email) {
                assert(accts[i as int] == self.users@[i as int]@);
                proof {
                    let k = choose|k: int| 0 <= k < accts.len() && (#[trigger] accts[k]).email == email@;
                    assert(accts[i as int].email == email@);
                    if k != i {
                        assert(self.users@[k].email@ != self.users@[i as int].email@);
                    }
                }
                return Some(i);
            }
            i = i + 1;
        }
        None
    }

    fn find_by_username(&self, username: &str) -> (r: bool)
        ensures
            r == username_taken(self.accounts(), username@),
    {
        let ghost accts = self.accounts();
        let mut i: usize = 0;
        while i < self.users.len()
            invariant
                accts == self.accounts(),
                i <= self.users@.len(),
                forall|j: int| 0 <= j < i ==> (#[trigger] accts[j]).username != username@,
            decreases self.users@.len() - i,
        {
            if same_text(self.users[i].username.as_str(), username) {
                assert(accts[i as int] == self.users@[i as int]@);
                assert(accts[i as int].username == username@);
                return true;
            }
            i = i + 1;
        }
        false
    }
}

/// Verifying an address that no account holds changes nothing.
pub proof fn lemma_verify_untaken(accounts: Seq<UserView>, e: Seq<char>)
    requires
        !email_taken(accounts, e),
    ensures
        mark_verified(accounts, e) == accounts,
{
    assert forall|i: int| 0 <= i < accounts.len() implies #[trigger] mark_verified(accounts, e)[i] == accounts[i] by {
        assert(accounts[i].email != e);
    }
    assert(mark_verified(accounts, e) =~= accounts);
}

/// Verifying an address a second time changes nothing.
pub proof fn lemma_verify_email_idempotent(accounts: Seq<UserView>, e: Seq<char>)
    ensures
        mark_verified(mark_verified(accounts, e), e) == mark_verified(accounts, e),
{
    assert(mark_verified(mark_verified(accounts, e), e) =~= mark_verified(accounts, e));
}

/// An unverified account is refused login as unverified, whatever password
/// is given: the password is never compared.
pub proof fn lemma_unverified_login_refused(a: UserView, password: Seq<char>)
    requires
        !a.email_verified,
    ensures
        login_rule(Some(a), password) == Err::<UserView, AuthError>(AuthError::EmailNotVerified),
{
}

} // verus!
