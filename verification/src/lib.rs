//! Exclusive, time-limited control of a fixed catalog of named points,
//! arbitrated per tenant workspace.
//!
//! `catalog` holds the immutable point and category definitions; `store`
//! models the persistence layer over plain values; `service` is the
//! occupation state machine; `token` is the stateless interaction grammar;
//! `list` renders pages of catalog and lease data; `interaction` routes
//! decoded tokens to the other components.

pub mod catalog;
pub mod interaction;
pub mod list;
pub mod service;
pub mod store;
pub mod token;
