//! What each command asks the API for and makes of the answers.
use vstd::prelude::*;

pub mod auth;
pub mod bulk;
pub mod comments;
pub mod cycles;
pub mod git;
pub mod import;
pub mod relations;
pub mod reviews;
pub mod setup;
pub mod statuses;
pub mod templates;
pub mod triage;
pub mod update;

verus! {

} // verus!
