//! Cluster data as the commands use it, and the rules that turn the
//! cluster's replies into it.

pub mod admin;
pub mod factory;
pub mod types;

use vstd::prelude::*;

verus! {

/// Common result type for CLI operations
pub type CliResult<T> = Result<T, String>;

} // verus!
