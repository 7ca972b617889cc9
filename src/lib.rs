// An indexed record store for users and projects of a creative-coding platform.
//
// - `username`: the compact name codec (64-symbol alphabet, 16-byte packed form).
// - `index`, `heap`, `table`: an ordered index with search cursors, a heap of
//   records with identifier reuse, and the two kept consistent. No storage-engine
//   crate is used: these are the library's own, held in memory and verified here,
//   so a store is not persisted and starts empty in every process.
// - `auth`, `config`: access keys, permission descriptors and what needs them.
// - `user`, `project`: the entities and their stored forms.
// - `store`: the composition of all of these, with the laws it obeys.
// - `http`, `crawler`: the types that the HTTP layer and the crawler exchange.
use vstd::prelude::*;

pub mod auth;
pub mod config;
pub mod crawler;
pub mod heap;
pub mod http;
pub mod index;
pub mod project;
pub mod store;
pub mod table;
pub mod user;
pub mod username;

pub use store::Store;
pub use user::User;
pub use username::Username;
