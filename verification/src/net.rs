//! How far a request has come.
use vstd::prelude::*;

verus! {

/// Marks a request whose head has not been written.
#[derive(Debug)]
pub struct Fresh;

/// Marks a request whose head has been written.
#[derive(Debug)]
pub struct Streaming;

} // verus!
