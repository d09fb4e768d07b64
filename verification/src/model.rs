//! Shared data model: storage rows, the resolved identity, and the
//! failure taxonomy of the authentication and list components.

use vstd::prelude::*;

verus! {

/// A registered user. The email is the unique key; the password is held in
/// plain text exactly as the service stores it (a documented weakness of
/// the design, deliberately not repaired here).
pub struct UserRow {
    pub email: String,
    pub password: String,
}

/// One session: an opaque token and the email that owns it. A user may hold
/// any number of concurrent sessions, and sessions never expire.
pub struct SessionRow {
    pub owner_email: String,
    pub token: String,
}

/// One list row: id assigned by storage, owner, name and (optional, possibly
/// empty) description. Membership is immutable after creation.
pub struct ListRow {
    pub id: u64,
    pub owner_email: String,
    pub name: String,
    pub description: String,
}

/// One membership row relating a list to a catalog movie. Insertion order
/// is significant: aggregation keeps titles in membership order.
pub struct MembershipRow {
    pub list_id: u64,
    pub owner_email: String,
    pub movie_id: u64,
}

/// One read-only catalog movie.
pub struct MovieRow {
    pub id: u64,
    pub title: String,
    pub description: String,
    pub release_year: u64,
    pub genre: String,
    pub image_url: String,
}

/// The identity attached to a request once its cookie has been resolved.
#[derive(Debug)]
pub struct Identity {
    pub email: String,
}

/// Why authentication or login failed.
#[derive(Debug, PartialEq, Eq, Structural)]
pub enum AuthFailure {
    /// No `auth_token` cookie was presented at all.
    NoCookie,
    /// A cookie was presented but no session holds its token.
    UnknownToken,
    /// Login: no user row matches the given email and password exactly.
    InvalidCredentials,
    /// Login: the session row could not be persisted, so no cookie is issued.
    SessionPersistFailure,
}

/// The view of an optional cookie value: the character sequence it carries,
/// if one was presented.
pub open spec fn opt_str_view(c: Option<String>) -> Option<Seq<char>> {
    match c {
        Option::None => Option::None,
        Option::Some(s) => Option::Some(s@),
    }
}

} // verus!
