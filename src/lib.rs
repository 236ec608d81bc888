//! Session, rate-limit and signing-key core of an email-based identity broker.
//!
//! Time is always passed in explicitly as a number of seconds (`now`), so that
//! every component can be driven by a deterministic clock. Each stateful
//! component is meant to be owned by one agent and reached through requests
//! (see `agent`), so none of them needs a lock of its own.

pub mod agent;
pub mod config;
pub mod keys;
pub mod limits;
pub mod pages;
pub mod store;
