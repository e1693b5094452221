use vstd::prelude::*;

pub mod text;
pub mod config;
pub mod paths;
pub mod messages;
pub mod git;
pub mod clock;
pub mod words;
pub mod add;
pub mod order;
pub mod listing;
pub mod pr;
pub mod clean;
pub mod select;
pub mod repo;
pub mod cli;
pub mod hooks;
pub mod doctor;
pub mod digest;
pub mod commands;
pub mod formats;

verus! {

} // verus!
