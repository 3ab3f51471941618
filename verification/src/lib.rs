//! A user directory: records kept in a pluggable key-value store, an index
//! from public keys to user identifiers, and the authentication of every
//! request that changes either.

pub mod assoc;
pub mod auth;
pub mod document;
pub mod error;
pub mod handlers;
pub mod laws;
pub mod layout;
pub mod pub_keys;
pub mod signing;
pub mod storage;
pub mod table;
pub mod text;
pub mod user;
pub mod user_client;
