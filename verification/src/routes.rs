//! What each route handler decides: how it changes the request's
//! authentication or session state, and the body it answers with.
//!
//! Three of the four routes answer through a deferred stream; the
//! decision itself is the same either way, so it is stated here once,
//! over the state models, and the surrounding program only replays it
//! onto the real middleware.

use crate::auth::AuthState;
use crate::session::SessionData;
use crate::user::User;
use vstd::prelude::*;

verus! {

/// The id of the one user this service ever logs in.
pub const LOGIN_USER_ID: i64 = 1;

/// The plain streaming route: it touches no request state at all.
pub fn route_streaming_example() -> (body: &'static str)
    ensures
        body@ == "done"@,
{
    "done"
}

/// The login route: from inside its deferred stream it logs in the fixed
/// user, then answers with the login banner.
pub fn route_streaming_login(auth: &mut AuthState) -> (body: &'static str)
    ensures
        final(auth)@ == Some(User { id: LOGIN_USER_ID }),
        body@ == "logged in"@,
{
    let user = User::new(LOGIN_USER_ID);
    auth.login(&user);
    "logged in"
}

/// The logout route: it clears the current user synchronously, before any
/// body is produced.
pub fn route_logout(auth: &mut AuthState) -> (body: &'static str)
    ensures
        final(auth)@ is None,
        body@ == "logged out"@,
{
    auth.logout();
    "logged out"
}

/// The session route: from inside its deferred stream it binds 42 to the
/// key "test" in the request's session, then answers.
pub fn route_session(session: &mut SessionData) -> (body: &'static str)
    ensures
        final(session)@ == old(session)@.insert("test"@, 42),
        body@ == "got session"@,
{
    session.insert("test".to_owned(), 42);
    "got session"
}

} // verus!
