//! License authority: issuing, authenticating and revoking time-bounded
//! license keys.
//!
//! The library owns the in-memory license store, the key-generation policy,
//! the hardware-id ban list and the authentication decision procedure.  All
//! state-changing operations are specified against a mathematical model of
//! the store, and the general properties of the design (activation happens
//! exactly once, bans dominate every other check, persistence round-trips)
//! are proved in `laws`.
//!
//! File and network transport, JSON serialisation and the system clock stay
//! outside: callers read the clock and hand `now` in, and persist the plain
//! records that `State::snapshot` returns.

pub mod types;
pub mod license;
pub mod keygen;
pub mod store;
pub mod service;
pub mod loader;
pub mod laws;
