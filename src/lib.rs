//! Transport and stream-decoding layer of a client for a container daemon's HTTP API.
//!
//! The verified core covers endpoint and query construction, request assembly,
//! response classification, the newline-delimited JSON frame splitter and the
//! multiplexed stdio frame codec.
use vstd::prelude::*;

pub mod conn;
pub mod id;
pub mod opts;
pub mod tarball;
mod text;
pub mod url;
pub mod version;

verus! {

} // verus!
