//! Routing core of an adaptive gateway in front of interchangeable inference
//! backends: the candidate-list builder, the alias resolver, the failover
//! state machine with its commit point, and the control-plane cache.
use vstd::prelude::*;

pub mod alias;
pub mod cache;
pub mod candidate;
pub mod config;
pub mod executor;
pub mod snapshot;

verus! {

} // verus!
