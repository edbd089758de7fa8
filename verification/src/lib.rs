//! A multi-tenant secret store: named values are encrypted at rest and
//! released only to a caller who has proven knowledge of a tenant's master
//! password.
//!
//! The crate is organised along the components of the system:
//! - [`store`]: the credential store holding tenants, users, per-tenant
//!   salts and encrypted entries, with tenant isolation and cascade deletion.
//! - [`crypto`]: key derivation (Argon2), authenticated encryption
//!   (AES-256-GCM) and password hashing, behind narrow trusted boundaries.
//! - [`session`]: the session state machine (sealed or unlocked) and login.
//! - [`vault`]: tenant-scoped entry operations gated by the session.
//! - [`errors`]: the closed set of error kinds the core reports.
//! - [`api`] and [`gui`]: plain data shapes handed to the adapters.

pub mod api;
pub mod crypto;
pub mod errors;
pub mod gui;
pub mod session;
pub mod store;
pub mod vault;
