//! The authorization gate: every protected operation demands the pre-shared
//! secret, presented by the caller in its cookie header.

use vstd::prelude::*;

verus! {

/// Witness that a request carried the correct shared secret. Handlers demand
/// one, and the only way to make one is [`Authorization::check`].
pub struct Authorization {}

/// The one client-visible rejection: the request did not carry the secret.
#[derive(Debug)]
pub enum AuthError {
    Unauthorized,
}

/// The value a request presented as its secret, if it presented one at all.
pub open spec fn presented(cookie: Option<&String>) -> Option<Seq<char>> {
    match cookie {
        Option::Some(c) => Option::Some(c@),
        Option::None => Option::None,
    }
}

/// A request is authorized exactly when it presents the secret, and the
/// presented value matches it letter for letter.
pub open spec fn authorized(cookie: Option<Seq<char>>, secret: Seq<char>) -> bool {
    match cookie {
        Option::Some(c) => c == secret,
        Option::None => false,
    }
}

impl Authorization {
    /// Grants the witness exactly when the presented value matches the
    /// secret; on a missing or mismatched value the caller gets
    /// [`AuthError::Unauthorized`] back instead.
    pub fn check(cookie: Option<&String>, secret: &String) -> (r: Result<Authorization, AuthError>)
        ensures
            r is Ok <==> authorized(presented(cookie), secret@),
            r is Err ==> r->Err_0 is Unauthorized,
    {
        match cookie {
            Option::Some(c) => {
                if *c == *secret {
                    Result::Ok(Authorization {})
                } else {
                    Result::Err(AuthError::Unauthorized)
                }
            },
            Option::None => Result::Err(AuthError::Unauthorized),
        }
    }
}

} // verus!
