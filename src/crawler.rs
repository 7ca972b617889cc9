use vstd::prelude::*;

use crate::user::User;

verus! {

/// A problem the crawler noted and went on from.
#[derive(Clone, Copy, Debug, PartialEq, Eq, Structural)]
pub enum Error {
    /// A fetched user's name is not a representable name.
    ParseUsername,
}

/// Users fetched by the crawler and waiting to be written to the store.
pub struct ResponseQueue {
    pub users: Vec<User>,
}

impl ResponseQueue {
    /// An empty queue.
    pub fn new() -> (r: ResponseQueue)
        ensures
            r.users@.len() == 0,
    {
        ResponseQueue { users: Vec::new() }
    }
}

} // verus!
