//! Job discovery, evaluation and evidence-backed resume planning.
use vstd::prelude::*;

pub mod adapters;
pub mod application;
pub mod cli;
pub mod logic;
pub mod ports;
pub mod text;

verus! {
} // verus!
