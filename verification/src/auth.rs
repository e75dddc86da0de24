//! The authentication state that the login layer attaches to a request.

use crate::user::User;
use vstd::prelude::*;

verus! {

/// One request's "current user": `None` until a login succeeds, `Some`
/// afterwards, cleared again by a logout. Volatile, like the store
/// behind it.
pub struct AuthState {
    current: Option<User>,
}

impl AuthState {
    /// The current user, if any.
    pub closed spec fn view(&self) -> Option<User> {
        self.current
    }

    pub fn new() -> (a: AuthState)
        ensures
            a@ is None,
    {
        AuthState { current: None }
    }

    /// Record `user` as the request's current user.
    pub fn login(&mut self, user: &User)
        ensures
            final(self)@ == Some(*user),
    {
        self.current = Some(*user);
    }

    /// Clear the current user.
    pub fn logout(&mut self)
        ensures
            final(self)@ is None,
    {
        self.current = None;
    }

    pub fn current_user(&self) -> (r: Option<User>)
        ensures
            r == self@,
    {
        self.current
    }
}

} // verus!
