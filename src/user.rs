use vstd::prelude::*;

use crate::auth::EnsureAuthError;
use crate::username::Username;

verus! {

/// A user of the platform.
#[derive(Clone, Debug, PartialEq, Eq)]
pub struct User {
    pub name: Username,
    pub id: u64,
    pub scratch_team: bool,
    pub status: String,
    pub bio: String,
    pub loves: u32,
    pub favorites: u32,
    pub views: u32,
    pub remixes: u32,
}

/// The fixed-width part of a stored user.
#[derive(Clone, Copy, Debug, PartialEq, Eq)]
pub struct FixedData {
    pub name: Username,
    pub id: u64,
    pub scratch_team: bool,
    pub loves: u32,
    pub favorites: u32,
    pub views: u32,
    pub remixes: u32,
}

/// A stored user: the fixed-width part and the two texts.
#[derive(Clone, Debug, PartialEq, Eq)]
pub struct DbValue {
    pub fixed_data: FixedData,
    pub status: String,
    pub bio: String,
}

/// The document that the search mirror holds for a user: its heap identifier and
/// the texts worth searching.
#[derive(Clone, Debug, PartialEq, Eq)]
pub struct MeiliDoc {
    pub id: u64,
    pub status: String,
    pub bio: String,
}

/// The stored form of a user.
pub open spec fn db_value_of(u: User) -> DbValue {
    DbValue {
        fixed_data: FixedData {
            name: u.name,
            id: u.id,
            scratch_team: u.scratch_team,
            loves: u.loves,
            favorites: u.favorites,
            views: u.views,
            remixes: u.remixes,
        },
        status: u.status,
        bio: u.bio,
    }
}

/// The user that a stored form holds.
pub open spec fn user_of(v: DbValue) -> User {
    User {
        name: v.fixed_data.name,
        id: v.fixed_data.id,
        scratch_team: v.fixed_data.scratch_team,
        status: v.status,
        bio: v.bio,
        loves: v.fixed_data.loves,
        favorites: v.fixed_data.favorites,
        views: v.fixed_data.views,
        remixes: v.fixed_data.remixes,
    }
}

/// Storing a user and reading it back gives the same user.
pub proof fn lemma_user_round_trip(u: User)
    ensures
        user_of(db_value_of(u)) == u,
{
}

impl User {
    /// Splits the user into its stored form.
    pub fn to_db_value(self) -> (r: DbValue)
        ensures
            r == db_value_of(self),
    {
        DbValue {
            fixed_data: FixedData {
                name: self.name,
                id: self.id,
                scratch_team: self.scratch_team,
                loves: self.loves,
                favorites: self.favorites,
                views: self.views,
                remixes: self.remixes,
            },
            status: self.status,
            bio: self.bio,
        }
    }
}

impl DbValue {
    /// The user that this stored form holds.
    pub fn to_user(&self) -> (r: User)
        ensures
            r == user_of(*self),
    {
        User {
            name: self.fixed_data.name,
            id: self.fixed_data.id,
            scratch_team: self.fixed_data.scratch_team,
            status: self.status.clone(),
            bio: self.bio.clone(),
            loves: self.fixed_data.loves,
            favorites: self.fixed_data.favorites,
            views: self.fixed_data.views,
            remixes: self.fixed_data.remixes,
        }
    }
}

/// Why a user could not be added.
#[derive(Clone, Copy, Debug, PartialEq, Eq, Structural)]
pub enum AddError {
    Internal,
    Auth(EnsureAuthError),
}

/// Why a user could not be read.
#[derive(Clone, Copy, Debug, PartialEq, Eq, Structural)]
pub enum GetByNameError {
    Auth(EnsureAuthError),
    NotFound,
}

/// Why a search failed.
#[derive(Clone, Copy, Debug, PartialEq, Eq, Structural)]
pub enum SearchError {
    Internal,
    Auth(EnsureAuthError),
}

/// Why a user could not be removed.
#[derive(Clone, Copy, Debug, PartialEq, Eq, Structural)]
pub enum RemoveByNameError {
    Internal,
    Auth(EnsureAuthError),
}

} // verus!
