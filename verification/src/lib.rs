//! Incremental syndication-feed reconciliation over an append-only record
//! store.
//!
//! The library keeps feed and entry records in an explicit in-memory store
//! ([`store::Store`]), computes which items of a freshly fetched remote feed
//! are new ([`reconcile::reconcile`]), and offers the two lifecycle
//! operations, subscribing to a feed and refreshing it
//! ([`lifecycle::subscribe_to_feed`], [`lifecycle::refresh_feed`]).
//! Fetching and parsing the remote feed, and persisting the records to a
//! relational engine, are left to the caller, which hands the fetched items
//! in as plain values.
//!
//! Every mutating operation takes the store by exclusive reference, so two
//! refreshes of the same feed cannot interleave: the race that would insert
//! duplicate links is ruled out by ownership, not by a storage constraint.

pub mod error;
pub mod feed;
pub mod lifecycle;
pub mod order;
pub mod reconcile;
pub mod store;
