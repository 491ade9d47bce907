//! A verified door-access backend core: identity resolution, session
//! lifecycle, one-time-code redemption, standing-permission checks, and an
//! append-only access-history ledger.

use vstd::prelude::*;

pub mod auth;
pub mod engine;
pub mod identity;
pub mod ledger;
pub mod models;
pub mod seq_util;
pub mod session;
pub mod store;
pub mod views;

verus! {

/// Name of the session cookie the embedding HTTP layer uses.
pub const COOKIE_NAME: &'static str = "SESSION";

} // verus!
