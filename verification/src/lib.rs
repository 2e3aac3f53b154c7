use vstd::prelude::*;

pub mod commands;
pub mod config;
pub mod fetcher;
pub mod data;
pub mod merge;
pub mod merge_laws;
pub mod order;
pub mod placement;
pub mod secrets;
pub mod state;
pub mod text;

verus! {

} // verus!
