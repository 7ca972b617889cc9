use vstd::prelude::*;

verus! {

/// Which operation classes need a credential.
#[derive(Clone, Copy, Debug, PartialEq, Eq, Structural)]
pub struct RequireAuth {
    pub read: bool,
    pub write: bool,
    pub remove: bool,
}

/// The store's configuration.
#[derive(Clone, Copy, Debug, PartialEq, Eq, Structural)]
pub struct Root {
    pub require_auth: RequireAuth,
}

/// What a new deployment is created with; it holds nothing yet.
#[derive(Clone, Copy, Debug, PartialEq, Eq, Structural)]
pub struct Create {}

} // verus!
