//! Resolution of an update between an installed and the latest version of a
//! package, and the transaction that installs it.
//!
//! The library decides; it performs no input or output itself. A caller asks
//! a [`resolution::VersionDiff`] for a download or for an installation, gets
//! back what has to be done next, does it, and reports what happened.

pub mod error;
pub mod laws;
pub mod manifest;
pub mod model;
pub mod resolution;
pub mod text;
pub mod transaction;
pub mod version;
