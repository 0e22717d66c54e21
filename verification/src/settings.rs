//! Configuration values the application is bootstrapped with. Loading them
//! from configuration files is the caller's concern; the core only carries
//! the plain values.

use vstd::prelude::*;

verus! {

/// Where the persistence collaborator keeps its data.
#[derive(Debug)]
pub struct DbSettings {
    pub path: String,
}

/// The backend credentials: application hash and id, and the phone number
/// of the already-registered account.
#[derive(Debug)]
pub struct TelegramSettings {
    pub api_hash: String,
    pub api_id: i32,
    pub phone: String,
}

/// The application's whole configuration.
#[derive(Debug)]
pub struct Settings {
    pub telegram: TelegramSettings,
    pub db: DbSettings,
}

} // verus!
