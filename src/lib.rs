//! Input cursors for a parser-combinator engine.
//!
//! A cursor hands out the items of some input one at a time or as whole
//! ranges, can be snapshot and restored for backtracking, reports where it
//! stands, and can be marked as holding only part of the input. Every
//! primitive folds its raw result into a four-way outcome that tells the
//! caller whether input was consumed and whether the step succeeded.
use vstd::prelude::*;

pub mod error;
pub mod stream;
pub mod slice;
pub mod partial;
pub mod primitives;
pub mod decode;
pub mod text;
pub mod iter;
pub mod laws;

verus! {

} // verus!
