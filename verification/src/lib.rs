//! Bulk retrieval of track listings from a paged remote source.
//!
//! The remote source hands out results only in bounded pages and must first
//! be probed for the total number of items it holds.  This crate contains
//! the verified core of that retrieval: planning the minimal set of page
//! requests, grouping them into fixed-width concurrent batches, driving the
//! probe/fetch/assemble sequence as an explicit state machine, and
//! assembling the fetched pages into a correctly ordered, correctly
//! truncated item list.  The surrounding I/O (building URLs, HTTP fetching,
//! JSON decoding) lives outside the verified core and feeds it plain values.

pub mod assemble;
pub mod handler;
pub mod plan;
pub mod session;
