//! A verified core for a read-only blog query service.
//!
//! The library models the blog's post table as a plain vector of rows and
//! verifies the whole query pipeline on top of it: counting the publicly
//! visible posts, looking a post up by id, selecting one fixed-length page
//! of the newest-first listing (optionally filtered by category), and the
//! pagination arithmetic around it.  Transport and database access live
//! outside the library and hand it plain values.

pub mod listing;
pub mod model;
pub mod pagination;
pub mod resolvers;
