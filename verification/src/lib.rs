//! A provider-dispatch and response-normalization layer for a vision gateway.
//!
//! The gateway accepts an image plus a natural-language prompt, forwards them
//! to one of several configurable vision backends, and returns a normalized
//! list of spatial annotations (a `(row, column)` point plus a label)
//! regardless of which backend answered.  This crate holds the verified core:
//! payload construction, reply-text extraction, and the parsing and
//! normalization of the semi-structured annotation arrays the backends emit.
//! The HTTP listener, file persistence and logging setup are plain I/O
//! plumbing and live outside the library.

pub mod gateway;
pub mod jsonval;
pub mod model;
pub mod normalize;
pub mod parse;
pub mod roundtrip;
pub mod session;
pub mod upload;

use vstd::prelude::*;

verus! {

} // verus!
