//! A container of named values of any type, read back by name and exact type.
//!
//! - [`attachment`] holds the store, [`AttachmentSet`](attachment::AttachmentSet).
//! - [`iter`] holds the two ways of walking a store.
//! - [`handle`] holds the shared, type-erased handle that a slot keeps its value
//!   behind, and everything that is taken on trust from std.
//! - [`laws`] holds what is proved of the store across calls.

pub mod attachment;
mod entries;
pub mod handle;
pub mod iter;
pub mod laws;
