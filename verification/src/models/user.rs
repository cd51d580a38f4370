//! Users and their API keys.

use vstd::prelude::*;

verus! {

/// A user of the daemon. `id` is the 128-bit value of the user's identifier;
/// instants are milliseconds since the Unix epoch.
#[derive(Debug, Clone)]
pub struct User {
    pub id: u128,
    pub username: String,
    pub display_name: Option<String>,
    pub created_at: i64,
}

/// An API key as it is stored: by the hash of its text, never the text.
#[derive(Debug, Clone)]
pub struct ApiKey {
    pub id: u128,
    pub user_id: u128,
    pub key_hash: String,
    pub label: String,
    pub created_at: i64,
    pub last_used_at: Option<i64>,
}

} // verus!
