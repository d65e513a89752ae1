//! Who a request speaks for, read from its `Authorization` header value
//! (`Bearer <session token>`).
use vstd::prelude::*;
use crate::token::{session_subject, TokenCodec};

verus! {

/// The index of the first space of `s` at or after `from`, or the length of
/// `s` where there is none.
pub open spec fn first_space(s: Seq<char>, from: int) -> int
    decreases s.len() - from,
{
    if from >= s.len() {
        s.len() as int
    } else if s[from] == ' ' {
        from
    } else {
        first_space(s, from + 1)
    }
}

/// The second space-separated field of a header value; `None` where the
/// value holds no space.
pub open spec fn bearer_field(h: Seq<char>) -> Option<Seq<char>> {
    let i = first_space(h, 0);
    if i >= h.len() {
        None
    } else {
        Some(h.subrange(i + 1, first_space(h, i + 1)))
    }
}

/// The account a header value authenticates at clock reading `now`: that of
/// the live session token in its second field, where that id is not 0.
pub open spec fn header_subject(secret: Seq<char>, header: Option<Seq<char>>, now: u64) -> Option<i32> {
    match header {
        None => None,
        Some(h) => match bearer_field(h) {
            None => None,
            Some(t) => match session_subject(secret, t, now) {
                Some(id) => if id == 0 {
                    None
                } else {
                    Some(id)
                },
                None => None,
            },
        },
    }
}

fn find_space(s: &str, from: usize) -> (r: usize)
    requires
        from <= s@.len(),
    ensures
        r == first_space(s@, from as int),
        from <= r <= s@.len(),
{
    let n = s.unicode_len();
    let mut i = from;
    while i < n && s.get_char(i) != ' '
        invariant
            n == s@.len(),
            from <= i <= n,
            first_space(s@, i as int) == first_space(s@, from as int),
        decreases n - i,
    {
        i = i + 1;
    }
    i
}

/// The caller of a request: authenticated with an account id, or not.
pub struct AuthenticationToken {
    pub id: Option<i32>,
    pub authenticated: bool,
}

impl AuthenticationToken {
    /// Reads the `Authorization` header value, `None` where the request has
    /// none (or one that is not visible ASCII text).
    pub fn from_header(header: Option<&str>, codec: &TokenCodec, now: u64) -> (r: AuthenticationToken)
        ensures
            r.id == header_subject(
                codec.secret(),
                match header {
                    Some(h) => Some(h@),
                    None => None,
                },
                now,
            ),
            r.authenticated == r.id is Some,
    {
        let unauthenticated = AuthenticationToken { id: None, authenticated: false };
        let h = match header {
            None => return unauthenticated,
            Some(h) => h,
        };
        let n = h.unicode_len();
        let i = find_space(h, 0);
        if i >= n {
            return unauthenticated;
        }
        let j = find_space(h, i + 1);
        let token = h.substring_char(i + 1, j);
        match codec.get_user_id(token, now) {
            Some(id) => {
                if id == 0 {
                    unauthenticated
                } else {
                    AuthenticationToken { id: Some(id), authenticated: true }
                }
            },
            None => unauthenticated,
        }
    }
}

} // verus!
