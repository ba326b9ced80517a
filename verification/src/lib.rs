//! Mutation-operator core of a coverage-guided fuzzer: randomized byte-level
//! transformations applied to a candidate test input, plus the registry
//! abstraction that lets a scheduler enumerate and invoke them uniformly.
use vstd::prelude::*;

pub mod byteseq;
pub mod corpus;
pub mod inputs;
pub mod mutations;
pub mod rand;

verus! {

/// Error type surfaced by operators when a collaborator fails
/// (for now: the corpus has no entries to sample from).
#[derive(Clone, Copy, Debug, PartialEq, Eq, Structural)]
pub enum AflError {
    Empty,
}

} // verus!
