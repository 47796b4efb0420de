//! A read-only virtual filesystem over a many-to-many file/tag store.
//!
//! Each path segment below the mount root is either a tag (narrowing the
//! visible file set) or a tagged file (a leaf). Listing a directory returns
//! the files carrying *all* tags named so far, plus the tags that can still
//! narrow that set. The store is an SQLite database with a fixed schema
//! (`Files`, `Tags`, `FileTags`); this crate composes the queries, classifies
//! paths, and shapes query results into directory entries. Mounting, signal
//! handling and the kernel-facing transport live outside the library.

pub mod cli;
pub mod config;
pub mod entries;
pub mod fuse;
pub mod lifecycle;
pub mod model;
pub mod ops;
pub mod resolve;
pub mod sql;
pub mod store;
pub mod utils;

use vstd::prelude::*;

verus! {

/// Builds the placeholder rows of a two-column `VALUES` clause, one row per
/// element of `list`, each carrying the literal numeric key; the elements
/// are bound as parameters by the caller.
pub fn list_to_values(key: u64, list: &Vec<String>) -> (r: String)
    ensures
        r@ == utils::keyed_marks(key as nat, list@.len()),
{
    utils::list_to_values_and_key(key, list)
}

/// Builds the placeholder tuple of an `IN (...)` test, one mark per element
/// of `list`, and reports how many marks it holds.
pub fn list_to_sql(list: &Vec<String>) -> (r: (usize, String))
    ensures
        r.0 == list@.len(),
        r.1@ == utils::tuple_marks(list@.len()),
{
    let marks = utils::list_to_sql(list);
    (list.len(), marks)
}

} // verus!
