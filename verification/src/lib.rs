//! Inventory-tracking core: device change diffing and upsert reconciliation.
//!
//! The crate models the persistent tables of an inventory system as an
//! in-memory relational store, computes structured diffs between a device's
//! previous and submitted state, and reconciles submissions against the store
//! while appending an auditable change log.

pub mod error;
pub mod models;
pub mod diff;
pub mod laws;
pub mod id_gen;
mod trusted;
pub mod store;
pub mod snapshot;
pub mod json;
pub mod devices;
pub mod text;
pub mod pages;
pub mod config;
pub mod auth;
pub mod readers;
