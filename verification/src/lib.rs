//! A podcast-synchronization core: the authentication/authorization gate and
//! the incremental sync engine behind a gpodder-style API.
//!
//! Clients register devices under a user account, then push and pull
//! incremental changes to subscription lists and episode playback actions,
//! using a monotonically increasing cursor. This crate holds the logic that
//! decides who may act on whose data, and the logic that merges submitted
//! change-sets into per-user state while handing back only the delta since a
//! given cursor. HTTP routing, JSON serialization and durable storage are the
//! caller's business; the core works on plain values.

pub mod auth;
pub mod device;
pub mod episode;
pub mod error;
pub mod path_format;
pub mod podsync;
pub mod pwhash;
pub mod session_cookie;
pub mod subscription;
pub mod text;
pub mod user;
pub mod views;

use vstd::prelude::*;

verus! {

/// A sync cursor: a point in server-observed write history. Queries ask for
/// everything strictly newer than a cursor.
pub type Timestamp = u64;

/// Query string of the subscription-delta endpoint.
pub struct QuerySince {
    pub since: Timestamp,
}

} // verus!
