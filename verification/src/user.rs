//! The identity that a successful login attaches to a request.

use vstd::prelude::*;

verus! {

/// A user of the service: an integer id, and nothing else. The in-memory
/// store keeps no credentials, so every user's password hash is empty.
#[derive(Clone, Copy, PartialEq, Eq, Structural, Debug)]
pub struct User {
    pub id: i64,
}

impl User {
    pub fn new(id: i64) -> (u: User)
        ensures
            u.id == id,
    {
        User { id }
    }

    pub fn get_id(&self) -> (r: i64)
        ensures
            r == self.id,
    {
        self.id
    }

    /// The hash the store would check a password against: always empty here.
    pub fn get_password_hash(&self) -> (r: Vec<u8>)
        ensures
            r@ == Seq::<u8>::empty(),
    {
        Vec::new()
    }
}

impl Default for User {
    fn default() -> (u: User)
        ensures
            u.id == 0,
    {
        User { id: 0 }
    }
}

} // verus!
