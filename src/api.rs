//! The query and mutation entry points that need more than one repository
//! call: reading the caller's own account, and verifying an address through
//! the token of its welcome message.
use vstd::prelude::*;
use crate::auth::AuthenticationToken;
use crate::token::action_subject;
use crate::repository::{
    account_with_id, lemma_verify_untaken, mark_verified, token_email, SuccessMessage, User, UserRepository, VERIFIED_MESSAGE,
};
use crate::validation::AuthError;

verus! {

/// Read-only entry points.
pub struct Query;

impl Query {
    /// The version of this interface.
    #[allow(non_snake_case)]
    pub fn apiVersion() -> (r: &'static str)
        ensures
            r@ == "1.0"@,
    {
        "1.0"
    }

    /// Every account, in order of registration.
    pub fn users(repo: &UserRepository) -> (r: Vec<User>)
        ensures
            r@.map_values(|u: User| u@) == repo.accounts(),
    {
        repo.all_users()
    }

    /// The account a request authenticates as; `NotFound` for a request that
    /// is not authenticated or whose account is gone.
    pub fn me(repo: &UserRepository, auth: &AuthenticationToken) -> (r: Result<User, AuthError>)
        requires
            repo.wf(),
        ensures
            match (auth.authenticated, auth.id) {
                (true, Some(id)) => match account_with_id(repo.accounts(), id) {
                    Some(a) => r matches Ok(u) && u@ == a,
                    None => r == Err::<User, AuthError>(AuthError::NotFound),
                },
                _ => r == Err::<User, AuthError>(AuthError::NotFound),
            },
    {
        if !auth.authenticated {
            return Err(AuthError::NotFound);
        }
        match auth.id {
            Some(id) => repo.get(id),
            None => Err(AuthError::NotFound),
        }
    }
}

/// Entry points that change the store.
pub struct Mutation;

impl Mutation {
    /// Marks as verified the accounts holding the address that a live action
    /// token carries. A token that does not resolve stands for the empty
    /// address, which no account holds, and so changes nothing. Succeeds
    /// either way.
    pub fn verify_email(repo: &mut UserRepository, token: &str, now: u64) -> (r: SuccessMessage)
        requires
            old(repo).wf(),
        ensures
            final(repo).wf(),
            final(repo).secret() == old(repo).secret(),
            final(repo).accounts() == mark_verified(old(repo).accounts(), token_email(old(repo).secret(), token@, now)),
            action_subject(old(repo).secret(), token@, now) is None ==> final(repo).accounts() == old(repo).accounts(),
            r.message@ == VERIFIED_MESSAGE@,
            r.success,
    {
        let email = match repo.codec().extract_email(token, now) {
            Some(e) => e,
            None => String::new(),
        };
        proof {
            old(repo).lemma_store_facts();
            if action_subject(old(repo).secret(), token@, now) is None {
                lemma_verify_untaken(old(repo).accounts(), Seq::empty());
            }
        }
        repo.verify_email(email.as_str())
    }
}

} // verus!
