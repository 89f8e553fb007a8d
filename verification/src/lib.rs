//! A write gateway for batches of JSON records.
//!
//! A request names a target collection, carries a shared-secret token and a
//! batch of records. The gateway authorizes the caller, keeps the records that
//! carry a string identifier, wraps them for storage, and, once the store has
//! answered the bulk insert, reports exactly which records were newly written.
//!
//! The gateway decides; it does not perform. Reading requests, reaching the
//! store and sending responses are left to the program around it, which
//! calls [`gateway::start_write`] before the bulk insert and
//! [`gateway::finish_write`] after it.

pub mod auth;
pub mod gateway;
pub mod guarantees;
pub mod prepare;
pub mod reconcile;
pub mod record;
pub mod response;

mod clock;
mod text;
