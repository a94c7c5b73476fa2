use vstd::prelude::*;

pub mod api;
pub mod clock;
pub mod commands;
pub mod config;
pub mod error;
pub mod json;
pub mod json_path;
pub mod json_text;
pub mod keyring;
pub mod name_map;
pub mod pagination;
pub mod priority;
pub mod resolve;
pub mod retry;
pub mod text;
pub mod types;
pub mod vcs;

verus! {

} // verus!
