//! Signed, expiring bearer tokens: session tokens carry an account id, action
//! tokens carry an e-mail address. Expiry is judged against a clock reading
//! that the caller passes in.
use vstd::prelude::*;
use crate::text::{decimal_text, int_text, opt_view, parse_i32, parsed_i32};

verus! {

/// What `jsonwebtoken::decode` reads from `token` under HMAC-SHA256 with
/// `secret`, when the signature holds: the string claim named `claim` and the
/// numeric `exp` claim, each where present with that type. `None` where the
/// token does not decode.
pub uninterp spec fn jwt_decoded(token: Seq<char>, claim: Seq<char>, secret: Seq<char>) -> Option<
    (Option<Seq<char>>, Option<u64>),
>;

/// The token `jsonwebtoken::encode` returns for the claims `{claim: subject,
/// exp}` under the default header (HS256) and `secret`.
pub uninterp spec fn jwt_encoded(claim: Seq<char>, subject: Seq<char>, exp: u64, secret: Seq<char>) -> Seq<char>;

/// The claim that carries a session token's account id.
pub open spec fn id_claim() -> Seq<char> {
    seq!['i', 'd']
}

/// The claim that carries an action token's e-mail address.
pub open spec fn email_claim() -> Seq<char> {
    seq!['e', 'm', 'a', 'i', 'l']
}

pub open spec fn decoded_view(r: Option<(Option<String>, Option<u64>)>) -> Option<
    (Option<Seq<char>>, Option<u64>),
> {
    match r {
        Some((s, e)) => Some(
            (
                opt_view(s),
                e,
            ),
        ),
        None => None,
    }
}

/// Relies on `jsonwebtoken::encode` with the default header (HS256). It fails
/// only on a key of another algorithm family or claims that do not serialise,
/// neither of which can happen for an HMAC key and a map of one string and
/// one integer. HMAC signing makes the token a function of the claims and the
/// secret. Under the same secret the token decodes to the claims it was
/// given: the subject under its claim, the integer `exp`, and no string under
/// any other claim name.
#[verifier::external_body]
fn jwt_encode(claim: &str, subject: &str, exp: u64, secret: &str) -> (r: String)
    requires
        claim@ == id_claim() || claim@ == email_claim(),
    ensures
        r@ == jwt_encoded(claim@, subject@, exp, secret@),
        jwt_decoded(r@, claim@, secret@) == Some((Some(subject@), Some(exp))),
        forall|c: Seq<char>| c != claim@ ==> #[trigger] jwt_decoded(r@, c, secret@) == Some((None::<Seq<char>>, Some(exp))),
{
    let mut claims = serde_json::Map::new();
    claims.insert(claim.to_string(), serde_json::Value::from(subject));
    claims.insert("exp".to_string(), serde_json::Value::from(exp));
    let key = jsonwebtoken::EncodingKey::from_secret(secret.as_bytes());
    match jsonwebtoken::encode(&jsonwebtoken::Header::default(), &claims, &key) {
        Ok(token) => token,
        Err(_) => String::new(),
    }
}

/// Relies on `jsonwebtoken::decode` with HS256 and a required `exp` claim,
/// whose time the caller judges: the result depends on its arguments alone.
#[verifier::external_body]
fn jwt_decode(token: &str, claim: &str, secret: &str) -> (r: Option<(Option<String>, Option<u64>)>)
    ensures
        decoded_view(r) == jwt_decoded(token@, claim@, secret@),
{
    let mut validation = jsonwebtoken::Validation::new(jsonwebtoken::Algorithm::HS256);
    validation.validate_exp = false;
    let key = jsonwebtoken::DecodingKey::from_secret(secret.as_bytes());
    let data = jsonwebtoken::decode::<serde_json::Map<String, serde_json::Value>>(token, &key, &validation).ok()?;
    let subject = data.claims.get(claim).and_then(serde_json::Value::as_str).map(str::to_string);
    Some((subject, data.claims.get("exp").and_then(serde_json::Value::as_u64)))
}

/// The stamp a token counts its lifetime from lies this far past the clock.
pub const ISSUE_OFFSET: u64 = 1800;

/// Lifetime of a session token, in seconds.
pub const SESSION_LIFETIME: u64 = 1800;

/// Lifetime of an action token, in seconds.
pub const ACTION_LIFETIME: u64 = 604800;

/// A token is still accepted this many seconds past its expiry.
pub const LEEWAY: u64 = 60;

/// The latest clock reading at which tokens can be issued without overflow.
pub const LATEST_CLOCK: u64 = 18446744073708945015;

pub open spec fn session_expiry(now: u64) -> u64 {
    (now + ISSUE_OFFSET + SESSION_LIFETIME) as u64
}

pub open spec fn action_expiry(now: u64) -> u64 {
    (now + ISSUE_OFFSET + ACTION_LIFETIME) as u64
}

/// A token expiring at `exp` is accepted at clock reading `now`.
pub open spec fn is_live(exp: u64, now: u64) -> bool {
    now <= exp + LEEWAY
}

/// The subject text and expiry that `token` carries under `claim`.
pub open spec fn claims_of(secret: Seq<char>, token: Seq<char>, claim: Seq<char>) -> Option<(Seq<char>, u64)> {
    match jwt_decoded(token, claim, secret) {
        Some((Some(s), Some(e))) => Some((s, e)),
        _ => None,
    }
}

/// The session token for account `id` minted at clock reading `now`.
pub open spec fn session_token(secret: Seq<char>, id: i32, now: u64) -> Seq<char> {
    jwt_encoded(id_claim(), decimal_text(id as int), session_expiry(now), secret)
}

/// The action token for `email` minted at clock reading `now`.
pub open spec fn action_token(secret: Seq<char>, email: Seq<char>, now: u64) -> Seq<char> {
    jwt_encoded(email_claim(), email, action_expiry(now), secret)
}

/// `token` is a session token for account `id` issued at clock reading `issued`.
pub open spec fn minted_session(secret: Seq<char>, token: Seq<char>, id: i32, issued: u64) -> bool {
    claims_of(secret, token, id_claim()) == Some((decimal_text(id as int), session_expiry(issued)))
}

/// `token` is an action token for `email` issued at clock reading `issued`.
pub open spec fn minted_action(secret: Seq<char>, token: Seq<char>, email: Seq<char>, issued: u64) -> bool {
    claims_of(secret, token, email_claim()) == Some((email, action_expiry(issued)))
}

/// The account id a session token stands for at clock reading `now`.
pub open spec fn session_subject(secret: Seq<char>, token: Seq<char>, now: u64) -> Option<i32> {
    match claims_of(secret, token, id_claim()) {
        Some((s, e)) => if is_live(e, now) {
            parsed_i32(s)
        } else {
            None
        },
        None => None,
    }
}

/// The e-mail address an action token stands for at clock reading `now`.
pub open spec fn action_subject(secret: Seq<char>, token: Seq<char>, now: u64) -> Option<Seq<char>> {
    match claims_of(secret, token, email_claim()) {
        Some((s, e)) => if is_live(e, now) {
            Some(s)
        } else {
            None
        },
        None => None,
    }
}

/// Mints and reads tokens signed with one secret.
pub struct TokenCodec {
    secret: String,
}

impl TokenCodec {
    /// The signing secret.
    pub closed spec fn secret(&self) -> Seq<char> {
        self.secret@
    }

    /// A codec signing with `secret`.
    pub fn new(secret: String) -> (r: TokenCodec)
        ensures
            r.secret() == secret@,
    {
        TokenCodec { secret }
    }

    /// A session token for account `id`, valid for a session lifetime counted
    /// from the issue stamp. It never stands for an e-mail address.
    pub fn generate_jwt(&self, id: i32, now: u64) -> (r: String)
        requires
            now <= LATEST_CLOCK,
        ensures
            r@ == session_token(self.secret(), id, now),
            minted_session(self.secret(), r@, id, now),
            forall|n: u64| #[trigger] action_subject(self.secret(), r@, n) is None,
    {
        let text = int_text(id);
        let claim = "id";
        proof {
            reveal_strlit("id");
            assert(claim@ =~= id_claim());
        }
        let exp = now + ISSUE_OFFSET + SESSION_LIFETIME;
        let token = jwt_encode(claim, text.as_str(), exp, self.secret.as_str());
        proof {
            assert(email_claim().len() != id_claim().len());
        }
        token
    }

    /// An action token for `email`, valid for an action lifetime counted from
    /// the issue stamp. It never stands for an account id.
    pub fn verify_token(&self, email: &str, now: u64) -> (r: String)
        requires
            now <= LATEST_CLOCK,
        ensures
            r@ == action_token(self.secret(), email@, now),
            minted_action(self.secret(), r@, email@, now),
            forall|n: u64| #[trigger] session_subject(self.secret(), r@, n) is None,
    {
        let claim = "email";
        proof {
            reveal_strlit("email");
            assert(claim@ =~= email_claim());
        }
        let exp = now + ISSUE_OFFSET + ACTION_LIFETIME;
        let token = jwt_encode(claim, email, exp, self.secret.as_str());
        proof {
            assert(email_claim().len() != id_claim().len());
        }
        token
    }

    /// The account id of a live session token; `None` for a token that does
    /// not decode, is not signed with this secret, has expired, or whose id is
    /// not a 32-bit integer.
    pub fn get_user_id(&self, token: &str, now: u64) -> (r: Option<i32>)
        ensures
            r == session_subject(self.secret(), token@, now),
    {
        let claim = "id";
        proof {
            reveal_strlit("id");
            assert(claim@ =~= id_claim());
        }
        match jwt_decode(token, claim, self.secret.as_str()) {
            Some((Some(s), Some(exp))) => {
                if now <= exp || now - exp <= LEEWAY {
                    parse_i32(s.as_str())
                } else {
                    None
                }
            },
            _ => None,
        }
    }

    /// The e-mail address of a live action token; `None` for a token that
    /// does not decode, is not signed with this secret, or has expired.
    pub fn extract_email(&self, token: &str, now: u64) -> (r: Option<String>)
        ensures
            r matches Some(e) ==> action_subject(self.secret(), token@, now) == Some(e@),
            r is None ==> action_subject(self.secret(), token@, now) is None,
    {
        let claim = "email";
        proof {
            reveal_strlit("email");
            assert(claim@ =~= email_claim());
        }
        match jwt_decode(token, claim, self.secret.as_str()) {
            Some((Some(s), Some(exp))) => {
                if now <= exp || now - exp <= LEEWAY {
                    Some(s)
                } else {
                    None
                }
            },
            _ => None,
        }
    }
}

/// A session token resolves to the account it was minted for until its
/// expiry (plus the leeway) has passed, and to nothing afterwards.
pub proof fn lemma_session_round_trip(secret: Seq<char>, token: Seq<char>, id: i32, issued: u64, now: u64)
    requires
        issued <= LATEST_CLOCK,
        minted_session(secret, token, id, issued),
    ensures
        now <= issued + ISSUE_OFFSET + SESSION_LIFETIME + LEEWAY ==> session_subject(secret, token, now) == Some(id),
        now > issued + ISSUE_OFFSET + SESSION_LIFETIME + LEEWAY ==> session_subject(secret, token, now) is None,
{
    crate::text::lemma_decimal_round_trip(id);
}

/// An action token resolves to the address it was minted for until its
/// expiry (plus the leeway) has passed, and to nothing afterwards.
pub proof fn lemma_action_round_trip(secret: Seq<char>, token: Seq<char>, email: Seq<char>, issued: u64, now: u64)
    requires
        issued <= LATEST_CLOCK,
        minted_action(secret, token, email, issued),
    ensures
        now <= issued + ISSUE_OFFSET + ACTION_LIFETIME + LEEWAY ==> action_subject(secret, token, now) == Some(email),
        now > issued + ISSUE_OFFSET + ACTION_LIFETIME + LEEWAY ==> action_subject(secret, token, now) is None,
{
}

} // verus!
