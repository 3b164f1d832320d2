//! Account and proxy management core for a cloud-assisted editor client.
//!
//! The library models and verifies the state that the application cares
//! about: the credential store (accounts keyed by email, an active-account
//! pointer, a certificate-approval flag), token expiry and refresh
//! computation, quota-response interpretation, the lifecycle of the single
//! intercepting-proxy child process, and the system proxy configuration
//! state machine. All I/O (HTTP, SQLite persistence, process spawning,
//! OS configuration commands) is performed by the surrounding application,
//! which hands this library plain values and carries out the actions the
//! library decides on.

pub mod errors;
pub mod strutil;
pub mod token;
pub mod store;
pub mod account;
pub mod quota;
pub mod supervisor;
pub mod sysproxy;
