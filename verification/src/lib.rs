//! Reconstructs, from the line-oriented output of a text search over a C
//! source tree, the chain of functions that call a given function.
//!
//! The crate is organised bottom-up:
//!
//! * [`edge`] holds the caller edge, the fact that all the rest produces;
//! * [`matching`] runs regular expressions on lines;
//! * [`classify`] recognises the five line shapes that name a caller;
//! * [`finder`] folds the lines of one search into caller edges;
//! * [`chain`] defines the depth-bounded call chain and its laws;
//! * [`traversal`] builds that chain with an explicit work-list;
//! * [`report`] renders edges as text.
pub mod chain;
pub mod classify;
pub mod edge;
pub mod finder;
pub mod matching;
pub mod report;
pub mod traversal;
