//! The authentication resolver and the login protocol.
//!
//! `resolve` turns the raw value of the `auth_token` cookie into a verified
//! identity or a precise failure; it is the single resolution routine behind
//! both the mandatory and the optional call sites (callers differ only in
//! how they react to the failure). `begin_login` and `finish_login` carry a
//! login through its two phases: credential check plus token generation,
//! then the durable-session gate.

use vstd::prelude::*;
use crate::model::{AuthFailure, Identity, UserRow, opt_str_view};
use crate::session::{SessionStore, contains_token, spec_lookup};

verus! {

/// Whether some user row matches the email and the password exactly
/// (plaintext equality, as the service stores passwords).
pub open spec fn spec_has_credentials(
    users: Seq<UserRow>,
    email: Seq<char>,
    password: Seq<char>,
) -> bool {
    exists|i: int|
        0 <= i < users.len() && users[i].email@ == email && users[i].password@ == password
}

/// Resolves the raw `auth_token` cookie value against the session store.
///
/// No cookie fails with `NoCookie`; a cookie whose token no session holds
/// fails with `UnknownToken`; otherwise the owning email of the first
/// matching session is returned. Read-only: no freshness check, no
/// password re-verification.
pub fn resolve(cookie: &Option<String>, store: &SessionStore) -> (r: Result<
    Identity,
    AuthFailure,
>)
    ensures
        (r matches Err(f) && f is NoCookie) <==> opt_str_view(*cookie) is None,
        (r matches Err(f) && f is UnknownToken) <==> (opt_str_view(*cookie) matches Some(t)
            && !contains_token(store@, t)),
        r is Ok <==> (opt_str_view(*cookie) matches Some(t) && contains_token(store@, t)),
        (r matches Ok(id) ==> Option::Some(id.email@) == spec_lookup(
            store@,
            opt_str_view(*cookie)->0,
        )),
{
    match cookie {
        Option::None => Err(AuthFailure::NoCookie),
        Option::Some(token) => {
            match store.lookup(token) {
                Option::None => Err(AuthFailure::UnknownToken),
                Option::Some(email) => Ok(Identity { email }),
            }
        },
    }
}

/// Relies on uuid's `Uuid::new_v4` and its `Display` impl: a fresh random
/// version-4 UUID rendered in the hyphenated form, which is exactly 36
/// characters. The value is random, so nothing more is promised of it.
#[verifier::external_body]
fn new_session_token() -> (r: String)
    ensures
        r@.len() == 36,
{
    uuid::Uuid::new_v4().to_string()
}

/// A login that has passed the credential check but whose session row is
/// not yet durable. The token must not reach the caller until it is.
#[derive(Debug)]
pub struct PendingLogin {
    pub email: String,
    pub token: String,
}

/// A completed login: the email to echo back and the token to set as the
/// `auth_token` cookie.
#[derive(Debug)]
pub struct LoginSuccess {
    pub email: String,
    pub token: String,
}

/// Whether any user row matches the email and password exactly.
pub fn check_credentials(users: &Vec<UserRow>, email: &String, password: &String) -> (r: bool)
    ensures
        r == spec_has_credentials(users@, email@, password@),
{
    let n = users.len();
    let mut i: usize = 0;
    while i < n
        invariant
            n == users@.len(),
            0 <= i <= n,
            forall|j: int|
                0 <= j < i ==> !(users@[j].email@ == email@ && users@[j].password@ == password@),
        decreases n - i,
    {
        if users[i].email == *email && users[i].password == *password {
            return true;
        }
        i = i + 1;
    }
    false
}

/// The first phase of a login: any mismatch — unknown email, or known email
/// with a different password — fails with the single undifferentiated
/// `InvalidCredentials`; a match yields the matched email and a freshly
/// generated opaque token, not yet backed by a session row.
pub fn begin_login(users: &Vec<UserRow>, email: &String, password: &String) -> (r: Result<
    PendingLogin,
    AuthFailure,
>)
    ensures
        r is Ok <==> spec_has_credentials(users@, email@, password@),
        (r matches Err(f) ==> f is InvalidCredentials),
        (r matches Ok(p) ==> p.email@ == email@ && p.token@.len() == 36),
{
    if check_credentials(users, email, password) {
        Ok(PendingLogin { email: email.clone(), token: new_session_token() })
    } else {
        Err(AuthFailure::InvalidCredentials)
    }
}

/// The second phase of a login: `persisted` reports whether the caller's
/// store durably recorded the session row. Only then is the token released;
/// a failed insert yields `SessionPersistFailure` and no cookie.
pub fn finish_login(pending: PendingLogin, persisted: bool) -> (r: Result<
    LoginSuccess,
    AuthFailure,
>)
    ensures
        r is Ok <==> persisted,
        (r matches Ok(s) ==> s.email@ == pending.email@ && s.token@ == pending.token@),
        (r matches Err(f) ==> f is SessionPersistFailure),
{
    if persisted {
        Ok(LoginSuccess { email: pending.email, token: pending.token })
    } else {
        Err(AuthFailure::SessionPersistFailure)
    }
}

/// A valid login followed by an identity check on the issued token resolves
/// to the email that logged in, provided the token is fresh — the global
/// uniqueness the token generator is chosen for: recording the session and
/// presenting its token returns exactly its owner.
pub proof fn lemma_login_then_whoami(
    store: Seq<(Seq<char>, Seq<char>)>,
    email: Seq<char>,
    token: Seq<char>,
)
    requires
        !contains_token(store, token),
    ensures
        spec_lookup(store.push((email, token)), token) == Option::Some(email),
{
    crate::session::lemma_fresh_token_resolves(store, email, token);
}

} // verus!
